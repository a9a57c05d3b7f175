//! Indexing the preview of a pull request beside its merge base.

use crate::error::{Failure, FetchError};
use crate::merge::{merge_parsed_specs, merged_from};
use crate::model::ParsedSpec;
use crate::pr::{
    counts_sections, has_sections, pr_key, pr_snapshot_key, resolver_for, snapshot_current,
    snapshot_index_is_current, PrPage, PrProvider, ResolvedPr,
};
use crate::protocol::{answers, Ask, Command, Reply};
use crate::sync::SpecSource;
use crate::text::{finishes_with, texts};
use crate::time::{fresh, instant_of, is_fresh, rfc3339_text, Timestamp};
use vstd::prelude::*;

verus! {

/// A request to index the preview of a pull request.
#[derive(Debug, Clone)]
pub struct PrRequest {
    pub source: SpecSource,
    pub pr_number: i64,
    /// Resolve the pull request even where its snapshot is fresh.
    pub force: bool,
}

/// A stored snapshot of a pull request, with the SHA of its merge base.
#[derive(Debug)]
pub struct CachedPr {
    pub snapshot_id: i64,
    pub base_sha: String,
}

/// A pull request that is being indexed.
#[derive(Debug)]
pub struct PrWork {
    pub spec_id: i64,
    pub resolved: ResolvedPr,
}

/// How indexing a pull request stands.
#[derive(Debug)]
pub enum PrStage<E> {
    /// The specification is being stored.
    Register,
    /// Fast path: the snapshot of the pull request is being looked up.
    FastSnapshot { spec_id: i64 },
    /// Fast path: its index version is being read.
    FastVersion { spec_id: i64, cached: CachedPr },
    /// Fast path: its sections are being counted.
    FastCount { spec_id: i64, cached: CachedPr },
    /// Fast path: the time of its indexing is being read.
    FastIndexedAt { spec_id: i64, cached: CachedPr },
    /// Fast path: the clock is being read.
    FastClock { spec_id: i64, cached: CachedPr, indexed_at: Timestamp },
    /// Fast path: the snapshot of its merge base is being looked up.
    FastBase { spec_id: i64, cached: CachedPr },
    /// The pull request is being resolved.
    Resolve { spec_id: i64, resolver: PrProvider },
    /// The snapshot of the pull request is being looked up.
    KnownSnapshot { work: PrWork },
    /// Its key is being read.
    KnownSha { work: PrWork, cached: CachedPr },
    /// Its index version is being read.
    KnownVersion { work: PrWork, cached: CachedPr },
    /// Its sections are being counted.
    KnownCount { work: PrWork, cached: CachedPr },
    /// The snapshot of its merge base is being looked up.
    KnownBase { work: PrWork, cached: CachedPr },
    /// What is stored of the pull request is stale and being deleted.
    DropPr { work: PrWork },
    /// The snapshot of the merge base is being looked up.
    BaseLookup { work: PrWork },
    /// Its index version is being read.
    BaseVersion { work: PrWork, found: i64 },
    /// The page of the merge base is being fetched.
    BaseFetch { work: PrWork, stale: Option<i64> },
    /// That page is being parsed.
    BaseParse { work: PrWork, stale: Option<i64>, html: String },
    /// The stale snapshot of the merge base is being deleted.
    BaseDrop { work: PrWork, stale_id: i64, parsed: ParsedSpec },
    /// The clock is being read, for the snapshot of the merge base.
    BaseClock { work: PrWork, parsed: ParsedSpec },
    /// The snapshot of the merge base is being inserted.
    BaseInsert { work: PrWork, parsed: ParsedSpec, commit_date: String },
    /// Its sections are being inserted.
    BaseSections { work: PrWork, base_id: i64, parsed: ParsedSpec },
    /// Its references are being inserted.
    BaseReferences { work: PrWork, base_id: i64, parsed: ParsedSpec },
    /// Its interface definitions are being inserted.
    BaseIdlDefinitions { work: PrWork, base_id: i64, parsed: ParsedSpec },
    /// The page after those in `done` is being fetched.
    PageFetch { work: PrWork, base_id: i64, done: Vec<ParsedSpec> },
    /// That page is being parsed.
    PageParse { work: PrWork, base_id: i64, done: Vec<ParsedSpec>, html: String },
    /// The clock is being read, for the snapshot of the pull request.
    PrClock { work: PrWork, base_id: i64, merged: ParsedSpec },
    /// The snapshot of the pull request is being inserted.
    PrInsert {
        work: PrWork,
        base_id: i64,
        merged: ParsedSpec,
        sha: String,
        commit_date: String,
        page_paths: Vec<String>,
    },
    /// Its sections are being inserted.
    PrSections { pr_id: i64, base_id: i64, merged: ParsedSpec },
    /// Its references are being inserted.
    PrReferences { pr_id: i64, base_id: i64, merged: ParsedSpec },
    /// Its interface definitions are being inserted.
    PrIdlDefinitions { pr_id: i64, base_id: i64, merged: ParsedSpec },
    /// Over, with the snapshots of the pull request and of its merge base.
    Finished(Result<(i64, i64), Failure<E>>),
}

/// The stage that follows where no cached snapshot is served at once: the
/// pull request is resolved, if its provider can be.
pub open spec fn goes_to_resolve<E>(request: PrRequest, spec_id: i64, next: PrStage<E>) -> bool {
    if request.source.provider@ == "whatwg"@ {
        next == (PrStage::<E>::Resolve { spec_id, resolver: PrProvider::Whatwg })
    } else {
        &&& next matches PrStage::Finished(Err(Failure::Detected(e)))
        &&& e matches FetchError::UnsupportedProvider { provider }
        &&& provider@ == request.source.provider@
    }
}

/// The stage that follows where the pages in `parsed` have been parsed: the
/// next page is fetched, or all of them are merged.
pub open spec fn goes_to_pages<E>(
    work: PrWork,
    base_id: i64,
    parsed: Seq<ParsedSpec>,
    next: PrStage<E>,
) -> bool {
    if parsed.len() < work.resolved.pages@.len() {
        &&& next matches PrStage::PageFetch { work: w, base_id: b, done }
        &&& w == work
        &&& b == base_id
        &&& done@ == parsed
    } else {
        &&& next matches PrStage::PrClock { work: w, base_id: b, merged }
        &&& w == work
        &&& b == base_id
        &&& merged_from(parsed, merged)
    }
}

/// The paths of the pages of a preview.
pub open spec fn page_paths_of(pages: Seq<PrPage>) -> Seq<Seq<char>> {
    pages.map_values(|page: PrPage| page.page_path@)
}

/// A reply to the question for an index version, as a result.
pub open spec fn version_read<E>(reply: Reply<E>) -> Result<Option<String>, ()> {
    match reply {
        Reply::Version(version) => Ok(version),
        _ => Err(()),
    }
}

/// A reply to the question for a number of sections, as a result.
pub open spec fn count_read<E>(reply: Reply<E>) -> Result<i64, ()> {
    match reply {
        Reply::Count(count) => Ok(count),
        _ => Err(()),
    }
}

/// A failed command ends the run, but for the two that decide whether a
/// snapshot is valid: where they fail, it is not.
pub open spec fn failure_ends<E>(stage: PrStage<E>) -> bool {
    !(stage is FastVersion || stage is FastCount || stage is KnownVersion || stage is KnownCount
        || stage is BaseVersion || stage is Finished)
}

/// The stage after `stage`, on the fast path, where `reply` is the answer to
/// its command and no failure that ends the run.
pub open spec fn fast_step<E>(
    request: PrRequest,
    stage: PrStage<E>,
    reply: Reply<E>,
    next: PrStage<E>,
) -> bool {
    match (stage, reply) {
        (PrStage::Register, Reply::Id(spec_id)) => if request.force {
            goes_to_resolve(request, spec_id, next)
        } else {
            next == (PrStage::<E>::FastSnapshot { spec_id })
        },
        (PrStage::FastSnapshot { spec_id }, Reply::PrSnapshot(found)) => match found {
            Some((snapshot_id, base_sha)) => next == (PrStage::<E>::FastVersion {
                spec_id,
                cached: CachedPr { snapshot_id, base_sha },
            }),
            None => goes_to_resolve(request, spec_id, next),
        },
        (PrStage::FastVersion { spec_id, cached }, _) => if snapshot_current(version_read(reply)) {
            next == (PrStage::<E>::FastCount { spec_id, cached })
        } else {
            goes_to_resolve(request, spec_id, next)
        },
        (PrStage::FastCount { spec_id, cached }, _) => if has_sections(count_read(reply)) {
            next == (PrStage::<E>::FastIndexedAt { spec_id, cached })
        } else {
            goes_to_resolve(request, spec_id, next)
        },
        (PrStage::FastIndexedAt { spec_id, cached }, Reply::Text(text)) => match instant_of(
            text@,
        ) {
            Some(at) => {
                &&& next matches PrStage::FastClock { spec_id: s, cached: c, indexed_at }
                &&& s == spec_id
                &&& c == cached
                &&& indexed_at@ == at
            },
            None => goes_to_resolve(request, spec_id, next),
        },
        (PrStage::FastClock { spec_id, cached, indexed_at }, Reply::Clock(now)) => if fresh(
            indexed_at@,
            now@,
        ) {
            next == (PrStage::<E>::FastBase { spec_id, cached })
        } else {
            goes_to_resolve(request, spec_id, next)
        },
        (PrStage::FastBase { spec_id, cached }, Reply::Found(base)) => match base {
            Some(base_id) => next == PrStage::<E>::Finished(Ok((cached.snapshot_id, base_id))),
            None => goes_to_resolve(request, spec_id, next),
        },
        _ => false,
    }
}

/// The stage after `stage`, from the resolution of the pull request to the
/// decision on what is stored of it.
pub open spec fn known_step<E>(stage: PrStage<E>, reply: Reply<E>, next: PrStage<E>) -> bool {
    match (stage, reply) {
        (PrStage::Resolve { spec_id, .. }, Reply::Resolved(resolved)) => next == (
        PrStage::<E>::KnownSnapshot { work: PrWork { spec_id, resolved } }),
        (PrStage::KnownSnapshot { work }, Reply::PrSnapshot(found)) => match found {
            Some((snapshot_id, base_sha)) => next == (PrStage::<E>::KnownSha {
                work,
                cached: CachedPr { snapshot_id, base_sha },
            }),
            None => next == (PrStage::<E>::BaseLookup { work }),
        },
        (PrStage::KnownSha { work, cached }, Reply::Text(sha)) => if work.resolved.head_sha@.is_suffix_of(
            sha@,
        ) {
            next == (PrStage::<E>::KnownVersion { work, cached })
        } else {
            next == (PrStage::<E>::DropPr { work })
        },
        (PrStage::KnownVersion { work, cached }, _) => if snapshot_current(version_read(reply)) {
            next == (PrStage::<E>::KnownCount { work, cached })
        } else {
            next == (PrStage::<E>::DropPr { work })
        },
        (PrStage::KnownCount { work, cached }, _) => if has_sections(count_read(reply)) {
            next == (PrStage::<E>::KnownBase { work, cached })
        } else {
            next == (PrStage::<E>::DropPr { work })
        },
        (PrStage::KnownBase { work, cached }, Reply::Found(base)) => match base {
            Some(base_id) => next == PrStage::<E>::Finished(Ok((cached.snapshot_id, base_id))),
            None => next == (PrStage::<E>::DropPr { work }),
        },
        (PrStage::DropPr { work }, Reply::Done) => next == (PrStage::<E>::BaseLookup { work }),
        _ => false,
    }
}

/// The stage after `stage`, while the merge base is found or indexed.
pub open spec fn base_step<E>(stage: PrStage<E>, reply: Reply<E>, next: PrStage<E>) -> bool {
    match (stage, reply) {
        (PrStage::BaseLookup { work }, Reply::Found(found)) => match found {
            Some(id) => next == (PrStage::<E>::BaseVersion { work, found: id }),
            None => next == (PrStage::<E>::BaseFetch { work, stale: None }),
        },
        (PrStage::BaseVersion { work, found }, _) => if snapshot_current(version_read(reply)) {
            goes_to_pages(work, found, Seq::empty(), next)
        } else {
            next == (PrStage::<E>::BaseFetch { work, stale: Some(found) })
        },
        (PrStage::BaseFetch { work, stale }, Reply::Html(html)) => next == (
        PrStage::<E>::BaseParse { work, stale, html }),
        (PrStage::BaseParse { work, stale, .. }, Reply::Parsed(parsed)) => match stale {
            Some(id) => next == (PrStage::<E>::BaseDrop { work, stale_id: id, parsed }),
            None => next == (PrStage::<E>::BaseClock { work, parsed }),
        },
        (PrStage::BaseDrop { work, parsed, .. }, Reply::Done) => next == (PrStage::<E>::BaseClock {
            work,
            parsed,
        }),
        (PrStage::BaseClock { work, parsed }, Reply::Clock(now)) => {
            &&& next matches PrStage::BaseInsert { work: w, parsed: p, commit_date }
            &&& w == work
            &&& p == parsed
            &&& commit_date@ == rfc3339_text(now@)
        },
        (PrStage::BaseInsert { work, parsed, .. }, Reply::Id(base_id)) => next == (
        PrStage::<E>::BaseSections { work, base_id, parsed }),
        (PrStage::BaseSections { work, base_id, parsed }, Reply::Done) => next == (
        PrStage::<E>::BaseReferences { work, base_id, parsed }),
        (PrStage::BaseReferences { work, base_id, parsed }, Reply::Done) => next == (
        PrStage::<E>::BaseIdlDefinitions { work, base_id, parsed }),
        (PrStage::BaseIdlDefinitions { work, base_id, .. }, Reply::Done) => goes_to_pages(
            work,
            base_id,
            Seq::empty(),
            next,
        ),
        _ => false,
    }
}

/// The stage after `stage`, while the pages of the pull request are indexed.
pub open spec fn pages_step<E>(
    request: PrRequest,
    stage: PrStage<E>,
    reply: Reply<E>,
    next: PrStage<E>,
) -> bool {
    match (stage, reply) {
        (PrStage::PageFetch { work, base_id, done }, Reply::Html(html)) => next == (
        PrStage::<E>::PageParse { work, base_id, done, html }),
        (PrStage::PageParse { work, base_id, done, .. }, Reply::Parsed(page)) => goes_to_pages(
            work,
            base_id,
            done@.push(page),
            next,
        ),
        (PrStage::PrClock { work, base_id, merged }, Reply::Clock(now)) => {
            &&& next matches PrStage::PrInsert {
                work: w,
                base_id: b,
                merged: m,
                sha,
                commit_date,
                page_paths,
            }
            &&& w == work
            &&& b == base_id
            &&& m == merged
            &&& sha@ == pr_key(request.pr_number as int, work.resolved.head_sha@)
            &&& commit_date@ == rfc3339_text(now@)
            &&& texts(page_paths@) == page_paths_of(work.resolved.pages@)
        },
        (PrStage::PrInsert { base_id, merged, .. }, Reply::Id(pr_id)) => next == (
        PrStage::<E>::PrSections { pr_id, base_id, merged }),
        (PrStage::PrSections { pr_id, base_id, merged }, Reply::Done) => next == (
        PrStage::<E>::PrReferences { pr_id, base_id, merged }),
        (PrStage::PrReferences { pr_id, base_id, merged }, Reply::Done) => next == (
        PrStage::<E>::PrIdlDefinitions { pr_id, base_id, merged }),
        (PrStage::PrIdlDefinitions { pr_id, base_id, .. }, Reply::Done) => next == PrStage::<
            E,
        >::Finished(Ok((pr_id, base_id))),
        _ => false,
    }
}

/// The stage after `stage` where `reply` is the answer to its command.
pub open spec fn pr_step<E>(
    request: PrRequest,
    stage: PrStage<E>,
    reply: Reply<E>,
    next: PrStage<E>,
) -> bool {
    if failure_ends(stage) && reply is Failed {
        next == PrStage::<E>::Finished(Err(Failure::Outside(reply->Failed_0)))
    } else {
        ||| fast_step(request, stage, reply, next)
        ||| known_step(stage, reply, next)
        ||| base_step(stage, reply, next)
        ||| pages_step(request, stage, reply, next)
    }
}

/// The stage that follows where no cached snapshot is served at once.
fn resolve_next<E>(request: &PrRequest, spec_id: i64) -> (next: PrStage<E>)
    ensures
        goes_to_resolve(*request, spec_id, next),
{
    match resolver_for(request.source.provider.as_str()) {
        Ok(resolver) => PrStage::Resolve { spec_id, resolver },
        Err(e) => PrStage::Finished(Err(Failure::Detected(e))),
    }
}

/// The stage that follows where the pages in `parsed` have been parsed.
fn next_page<E>(work: PrWork, base_id: i64, parsed: Vec<ParsedSpec>) -> (next: PrStage<E>)
    ensures
        goes_to_pages(work, base_id, parsed@, next),
{
    if parsed.len() < work.resolved.pages.len() {
        PrStage::PageFetch { work, base_id, done: parsed }
    } else {
        PrStage::PrClock { work, base_id, merged: merge_parsed_specs(parsed) }
    }
}

fn page_paths(pages: &Vec<PrPage>) -> (paths: Vec<String>)
    ensures
        texts(paths@) == page_paths_of(pages@),
{
    let mut paths: Vec<String> = Vec::new();
    let mut i: usize = 0;
    while i < pages.len()
        invariant
            i <= pages@.len(),
            texts(paths@) == page_paths_of(pages@.take(i as int)),
        decreases pages@.len() - i,
    {
        let ghost before = paths@;
        paths.push(pages[i].page_path.clone());
        assert(texts(paths@) =~= texts(before).push(pages@[i as int].page_path@));
        assert(page_paths_of(pages@.take(i + 1)) =~= page_paths_of(pages@.take(i as int)).push(
            pages@[i as int].page_path@,
        ));
        i += 1;
    }
    assert(pages@.take(i as int) =~= pages@);
    paths
}

fn read_version<E>(reply: Reply<E>) -> (read: Result<Option<String>, ()>)
    ensures
        read == version_read(reply),
{
    match reply {
        Reply::Version(version) => Ok(version),
        _ => Err(()),
    }
}

fn read_count<E>(reply: Reply<E>) -> (read: Result<i64, ()>)
    ensures
        read == count_read(reply),
{
    match reply {
        Reply::Count(count) => Ok(count),
        _ => Err(()),
    }
}

/// Begins to index the preview of a pull request. Unless forced, a valid
/// snapshot that was indexed within the last day is served at once, with the
/// snapshot of its merge base. Otherwise the pull request is resolved, and
/// its snapshot is kept while its head stays the same.
pub fn ensure_pr_indexed<E>(
    spec_name: &str,
    base_url: &str,
    provider: &str,
    pr_number: i64,
    force: bool,
) -> (begun: (PrRequest, PrStage<E>))
    ensures
        begun.0.source.spec_name@ == spec_name@,
        begun.0.source.base_url@ == base_url@,
        begun.0.source.provider@ == provider@,
        begun.0.pr_number == pr_number,
        begun.0.force == force,
        begun.1 == PrStage::<E>::Register,
        begun.1.well_formed(),
{
    let source = SpecSource {
        spec_name: spec_name.to_owned(),
        base_url: base_url.to_owned(),
        provider: provider.to_owned(),
    };
    (PrRequest { source, pr_number, force }, PrStage::Register)
}

impl<E> PrStage<E> {
    /// Where a page is being fetched or parsed, there is one more page than
    /// have been parsed.
    pub open spec fn well_formed(self) -> bool {
        match self {
            PrStage::PageFetch { work, done, .. } => done@.len() < work.resolved.pages@.len(),
            PrStage::PageParse { work, done, .. } => done@.len() < work.resolved.pages@.len(),
            _ => true,
        }
    }

    /// The command that this stage waits for, if any.
    pub open spec fn pending(self, request: PrRequest) -> Option<Ask> {
        let source = request.source;
        let pr_number = request.pr_number;
        match self {
            PrStage::Register => Some(source.ask()),
            PrStage::FastSnapshot { .. } | PrStage::KnownSnapshot { .. } => Some(
                Ask::GetPrSnapshot { spec_name: source.spec_name@, pr_number },
            ),
            PrStage::FastVersion { cached, .. } | PrStage::KnownVersion { cached, .. } => Some(
                Ask::ReadIndexVersion { snapshot_id: cached.snapshot_id },
            ),
            PrStage::FastCount { cached, .. } | PrStage::KnownCount { cached, .. } => Some(
                Ask::CountSections { snapshot_id: cached.snapshot_id },
            ),
            PrStage::FastIndexedAt { cached, .. } => Some(
                Ask::ReadIndexedAt { snapshot_id: cached.snapshot_id },
            ),
            PrStage::FastClock { .. } | PrStage::BaseClock { .. } | PrStage::PrClock {
                ..
            } => Some(Ask::ReadClock),
            PrStage::FastBase { spec_id, cached } => Some(
                Ask::GetCommitSnapshot { spec_id, sha: cached.base_sha@ },
            ),
            PrStage::Resolve { resolver, .. } => Some(
                Ask::Resolve {
                    resolver,
                    spec_name: source.spec_name@,
                    base_url: source.base_url@,
                    pr_number,
                },
            ),
            PrStage::KnownSha { cached, .. } => Some(
                Ask::ReadSha { snapshot_id: cached.snapshot_id },
            ),
            PrStage::KnownBase { work, cached } => Some(
                Ask::GetCommitSnapshot { spec_id: work.spec_id, sha: cached.base_sha@ },
            ),
            PrStage::DropPr { work } => Some(
                Ask::DeletePrData { spec_id: work.spec_id, pr_number },
            ),
            PrStage::BaseLookup { work } => Some(
                Ask::GetCommitSnapshot {
                    spec_id: work.spec_id,
                    sha: work.resolved.merge_base_sha@,
                },
            ),
            PrStage::BaseVersion { found, .. } => Some(Ask::ReadIndexVersion { snapshot_id: found }),
            PrStage::BaseFetch { work, .. } => Some(
                Ask::FetchPage { url: work.resolved.base_html_url@ },
            ),
            PrStage::BaseParse { html, .. } => Some(
                Ask::ParseSpec {
                    html: html@,
                    spec_name: source.spec_name@,
                    base_url: source.base_url@,
                },
            ),
            PrStage::BaseDrop { stale_id, .. } => Some(
                Ask::DeleteCommitSnapshot { snapshot_id: stale_id },
            ),
            PrStage::BaseInsert { work, commit_date, .. } => Some(
                Ask::InsertSnapshot {
                    spec_id: work.spec_id,
                    sha: work.resolved.merge_base_sha@,
                    commit_date: commit_date@,
                },
            ),
            PrStage::BaseSections { base_id, parsed, .. } => Some(
                Ask::InsertSections { snapshot_id: base_id, sections: parsed.sections@ },
            ),
            PrStage::BaseReferences { base_id, parsed, .. } => Some(
                Ask::InsertReferences { snapshot_id: base_id, references: parsed.references@ },
            ),
            PrStage::BaseIdlDefinitions { base_id, parsed, .. } => Some(
                Ask::InsertIdlDefinitions {
                    snapshot_id: base_id,
                    idl_definitions: parsed.idl_definitions@,
                },
            ),
            PrStage::PageFetch { work, done, .. } => Some(
                Ask::FetchPage { url: work.resolved.pages@[done@.len() as int].url@ },
            ),
            PrStage::PageParse { html, .. } => Some(
                Ask::ParseSpec {
                    html: html@,
                    spec_name: source.spec_name@,
                    base_url: source.base_url@,
                },
            ),
            PrStage::PrInsert { work, sha, commit_date, page_paths, .. } => Some(
                Ask::InsertPrSnapshot {
                    spec_id: work.spec_id,
                    sha: sha@,
                    commit_date: commit_date@,
                    pr_number,
                    merge_base_sha: work.resolved.merge_base_sha@,
                    page_paths: texts(page_paths@),
                },
            ),
            PrStage::PrSections { pr_id, merged, .. } => Some(
                Ask::InsertSections { snapshot_id: pr_id, sections: merged.sections@ },
            ),
            PrStage::PrReferences { pr_id, merged, .. } => Some(
                Ask::InsertReferences { snapshot_id: pr_id, references: merged.references@ },
            ),
            PrStage::PrIdlDefinitions { pr_id, merged, .. } => Some(
                Ask::InsertIdlDefinitions {
                    snapshot_id: pr_id,
                    idl_definitions: merged.idl_definitions@,
                },
            ),
            PrStage::Finished(_) => None,
        }
    }

    /// What to do next, or nothing where indexing is over.
    pub fn command<'a>(&'a self, request: &'a PrRequest) -> (command: Option<Command<'a>>)
        requires
            self.well_formed(),
        ensures
            match command {
                Some(c) => self.pending(*request) == Some(c@),
                None => self.pending(*request) is None,
            },
    {
        let spec_name = request.source.spec_name.as_str();
        let base_url = request.source.base_url.as_str();
        let pr_number: i64 = request.pr_number;
        let command = match self {
            PrStage::Register => request.source.command(),
            PrStage::FastSnapshot { .. } | PrStage::KnownSnapshot { .. } => Command::GetPrSnapshot {
                spec_name,
                pr_number,
            },
            PrStage::FastVersion { cached, .. } | PrStage::KnownVersion {
                cached,
                ..
            } => Command::ReadIndexVersion { snapshot_id: cached.snapshot_id },
            PrStage::FastCount { cached, .. } | PrStage::KnownCount {
                cached,
                ..
            } => Command::CountSections { snapshot_id: cached.snapshot_id },
            PrStage::FastIndexedAt { cached, .. } => Command::ReadIndexedAt {
                snapshot_id: cached.snapshot_id,
            },
            PrStage::FastClock { .. } | PrStage::BaseClock { .. } | PrStage::PrClock {
                ..
            } => Command::ReadClock,
            PrStage::FastBase { spec_id, cached } => Command::GetCommitSnapshot {
                spec_id: *spec_id,
                sha: cached.base_sha.as_str(),
            },
            PrStage::Resolve { resolver, .. } => Command::Resolve {
                resolver: *resolver,
                spec_name,
                base_url,
                pr_number,
            },
            PrStage::KnownSha { cached, .. } => Command::ReadSha {
                snapshot_id: cached.snapshot_id,
            },
            PrStage::KnownBase { work, cached } => Command::GetCommitSnapshot {
                spec_id: work.spec_id,
                sha: cached.base_sha.as_str(),
            },
            PrStage::DropPr { work } => Command::DeletePrData { spec_id: work.spec_id, pr_number },
            PrStage::BaseLookup { work } => Command::GetCommitSnapshot {
                spec_id: work.spec_id,
                sha: work.resolved.merge_base_sha.as_str(),
            },
            PrStage::BaseVersion { found, .. } => Command::ReadIndexVersion { snapshot_id: *found },
            PrStage::BaseFetch { work, .. } => Command::FetchPage {
                url: work.resolved.base_html_url.as_str(),
            },
            PrStage::BaseParse { html, .. } | PrStage::PageParse {
                html,
                ..
            } => Command::ParseSpec { html: html.as_str(), spec_name, base_url },
            PrStage::BaseDrop { stale_id, .. } => Command::DeleteCommitSnapshot {
                snapshot_id: *stale_id,
            },
            PrStage::BaseInsert { work, commit_date, .. } => Command::InsertSnapshot {
                spec_id: work.spec_id,
                sha: work.resolved.merge_base_sha.as_str(),
                commit_date: commit_date.as_str(),
            },
            PrStage::BaseSections { base_id, parsed, .. } => Command::InsertSections {
                snapshot_id: *base_id,
                sections: &parsed.sections,
            },
            PrStage::BaseReferences { base_id, parsed, .. } => Command::InsertReferences {
                snapshot_id: *base_id,
                references: &parsed.references,
            },
            PrStage::BaseIdlDefinitions { base_id, parsed, .. } => Command::InsertIdlDefinitions {
                snapshot_id: *base_id,
                idl_definitions: &parsed.idl_definitions,
            },
            PrStage::PageFetch { work, done, .. } => Command::FetchPage {
                url: work.resolved.pages[done.len()].url.as_str(),
            },
            PrStage::PrInsert { work, sha, commit_date, page_paths, .. } => Command::InsertPrSnapshot {
                spec_id: work.spec_id,
                sha: sha.as_str(),
                commit_date: commit_date.as_str(),
                pr_number,
                merge_base_sha: work.resolved.merge_base_sha.as_str(),
                page_paths,
            },
            PrStage::PrSections { pr_id, merged, .. } => Command::InsertSections {
                snapshot_id: *pr_id,
                sections: &merged.sections,
            },
            PrStage::PrReferences { pr_id, merged, .. } => Command::InsertReferences {
                snapshot_id: *pr_id,
                references: &merged.references,
            },
            PrStage::PrIdlDefinitions { pr_id, merged, .. } => Command::InsertIdlDefinitions {
                snapshot_id: *pr_id,
                idl_definitions: &merged.idl_definitions,
            },
            PrStage::Finished(_) => return None,
        };
        Some(command)
    }

    /// Goes on with the answer to the command of this stage.
    pub fn advance(self, request: &PrRequest, reply: Reply<E>) -> (next: PrStage<E>)
        requires
            self.well_formed(),
            self.pending(*request) matches Some(ask) && answers(ask, reply),
        ensures
            pr_step(*request, self, reply, next),
            next.well_formed(),
    {
        match (self, reply) {
            (PrStage::FastVersion { spec_id, cached }, reply) => {
                if snapshot_index_is_current(&read_version(reply)) {
                    PrStage::FastCount { spec_id, cached }
                } else {
                    resolve_next(request, spec_id)
                }
            },
            (PrStage::FastCount { spec_id, cached }, reply) => {
                if counts_sections(&read_count(reply)) {
                    PrStage::FastIndexedAt { spec_id, cached }
                } else {
                    resolve_next(request, spec_id)
                }
            },
            (PrStage::KnownVersion { work, cached }, reply) => {
                if snapshot_index_is_current(&read_version(reply)) {
                    PrStage::KnownCount { work, cached }
                } else {
                    PrStage::DropPr { work }
                }
            },
            (PrStage::KnownCount { work, cached }, reply) => {
                if counts_sections(&read_count(reply)) {
                    PrStage::KnownBase { work, cached }
                } else {
                    PrStage::DropPr { work }
                }
            },
            (PrStage::BaseVersion { work, found }, reply) => {
                if snapshot_index_is_current(&read_version(reply)) {
                    next_page(work, found, Vec::new())
                } else {
                    PrStage::BaseFetch { work, stale: Some(found) }
                }
            },
            (_, Reply::Failed(e)) => PrStage::Finished(Err(Failure::Outside(e))),
            (PrStage::Register, Reply::Id(spec_id)) => {
                if request.force {
                    resolve_next(request, spec_id)
                } else {
                    PrStage::FastSnapshot { spec_id }
                }
            },
            (PrStage::FastSnapshot { spec_id }, Reply::PrSnapshot(found)) => match found {
                Some((snapshot_id, base_sha)) => PrStage::FastVersion {
                    spec_id,
                    cached: CachedPr { snapshot_id, base_sha },
                },
                None => resolve_next(request, spec_id),
            },
            (PrStage::FastIndexedAt { spec_id, cached }, Reply::Text(text)) => {
                match Timestamp::parse_from_rfc3339(text.as_str()) {
                    Some(indexed_at) => PrStage::FastClock { spec_id, cached, indexed_at },
                    None => resolve_next(request, spec_id),
                }
            },
            (PrStage::FastClock { spec_id, cached, indexed_at }, Reply::Clock(now)) => {
                if is_fresh(&indexed_at, &now) {
                    PrStage::FastBase { spec_id, cached }
                } else {
                    resolve_next(request, spec_id)
                }
            },
            (PrStage::FastBase { spec_id, cached }, Reply::Found(base)) => match base {
                Some(base_id) => PrStage::Finished(Ok((cached.snapshot_id, base_id))),
                None => resolve_next(request, spec_id),
            },
            (
                PrStage::Resolve { spec_id, resolver: _ },
                Reply::Resolved(resolved),
            ) => PrStage::KnownSnapshot { work: PrWork { spec_id, resolved } },
            (PrStage::KnownSnapshot { work }, Reply::PrSnapshot(found)) => match found {
                Some((snapshot_id, base_sha)) => PrStage::KnownSha {
                    work,
                    cached: CachedPr { snapshot_id, base_sha },
                },
                None => PrStage::BaseLookup { work },
            },
            (PrStage::KnownSha { work, cached }, Reply::Text(sha)) => {
                if finishes_with(sha.as_str(), work.resolved.head_sha.as_str()) {
                    PrStage::KnownVersion { work, cached }
                } else {
                    PrStage::DropPr { work }
                }
            },
            (PrStage::KnownBase { work, cached }, Reply::Found(base)) => match base {
                Some(base_id) => PrStage::Finished(Ok((cached.snapshot_id, base_id))),
                None => PrStage::DropPr { work },
            },
            (PrStage::DropPr { work }, Reply::Done) => PrStage::BaseLookup { work },
            (PrStage::BaseLookup { work }, Reply::Found(found)) => match found {
                Some(id) => PrStage::BaseVersion { work, found: id },
                None => PrStage::BaseFetch { work, stale: None },
            },
            (PrStage::BaseFetch { work, stale }, Reply::Html(html)) => PrStage::BaseParse {
                work,
                stale,
                html,
            },
            (PrStage::BaseParse { work, stale, html: _ }, Reply::Parsed(parsed)) => match stale {
                Some(id) => PrStage::BaseDrop { work, stale_id: id, parsed },
                None => PrStage::BaseClock { work, parsed },
            },
            (
                PrStage::BaseDrop { work, stale_id: _, parsed },
                Reply::Done,
            ) => PrStage::BaseClock { work, parsed },
            (PrStage::BaseClock { work, parsed }, Reply::Clock(now)) => PrStage::BaseInsert {
                work,
                parsed,
                commit_date: now.to_rfc3339(),
            },
            (
                PrStage::BaseInsert { work, parsed, commit_date: _ },
                Reply::Id(base_id),
            ) => PrStage::BaseSections { work, base_id, parsed },
            (
                PrStage::BaseSections { work, base_id, parsed },
                Reply::Done,
            ) => PrStage::BaseReferences { work, base_id, parsed },
            (
                PrStage::BaseReferences { work, base_id, parsed },
                Reply::Done,
            ) => PrStage::BaseIdlDefinitions { work, base_id, parsed },
            (PrStage::BaseIdlDefinitions { work, base_id, parsed: _ }, Reply::Done) => next_page(
                work,
                base_id,
                Vec::new(),
            ),
            (
                PrStage::PageFetch { work, base_id, done },
                Reply::Html(html),
            ) => PrStage::PageParse { work, base_id, done, html },
            (PrStage::PageParse { work, base_id, done, html: _ }, Reply::Parsed(page)) => {
                let mut done = done;
                done.push(page);
                next_page(work, base_id, done)
            },
            (PrStage::PrClock { work, base_id, merged }, Reply::Clock(now)) => PrStage::PrInsert {
                sha: pr_snapshot_key(request.pr_number, work.resolved.head_sha.as_str()),
                commit_date: now.to_rfc3339(),
                page_paths: page_paths(&work.resolved.pages),
                work,
                base_id,
                merged,
            },
            (
                PrStage::PrInsert { base_id, merged, .. },
                Reply::Id(pr_id),
            ) => PrStage::PrSections { pr_id, base_id, merged },
            (
                PrStage::PrSections { pr_id, base_id, merged },
                Reply::Done,
            ) => PrStage::PrReferences { pr_id, base_id, merged },
            (
                PrStage::PrReferences { pr_id, base_id, merged },
                Reply::Done,
            ) => PrStage::PrIdlDefinitions { pr_id, base_id, merged },
            (
                PrStage::PrIdlDefinitions { pr_id, base_id, merged: _ },
                Reply::Done,
            ) => PrStage::Finished(Ok((pr_id, base_id))),
            _ => vstd::pervasive::unreached(),
        }
    }
}

} // verus!
