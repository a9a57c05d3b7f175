//! What holds of every indexing of a pull request, from its first command to
//! its last.

use crate::error::{Failure, FetchError};
use crate::merge::merged_from;
use crate::model::ParsedSpec;
use crate::pr::{has_sections, pr_key, snapshot_current, PrProvider, ResolvedPr};
use crate::preview::{
    count_read, failure_ends, page_paths_of, pr_step, version_read, PrRequest, PrStage, PrWork,
};
use crate::protocol::{answers, changes_index, uses_network, Ask, Reply};
use crate::time::{fresh, instant_of, rfc3339_text, Instant, Timestamp};
use vstd::prelude::*;

verus! {

/// `stages` are the stages of a run from its beginning, and `replies` the
/// answers that led from each to the next.
pub open spec fn pr_run<E>(
    request: PrRequest,
    stages: Seq<PrStage<E>>,
    replies: Seq<Reply<E>>,
) -> bool {
    &&& stages.len() == replies.len() + 1
    &&& stages[0] == PrStage::<E>::Register
    &&& forall|i: int|
        0 <= i < replies.len() ==> {
            &&& stages[i].pending(request) is Some
            &&& answers(stages[i].pending(request)->0, #[trigger] replies[i])
            &&& pr_step(request, stages[i], replies[i], stages[i + 1])
        }
}

/// How far a run is from its end, in stages that are passed once at most.
pub open spec fn stages_left<E>(stage: PrStage<E>) -> nat {
    match stage {
        PrStage::Register => 28,
        PrStage::FastSnapshot { .. } => 27,
        PrStage::FastVersion { .. } => 26,
        PrStage::FastCount { .. } => 25,
        PrStage::FastIndexedAt { .. } => 24,
        PrStage::FastClock { .. } => 23,
        PrStage::FastBase { .. } => 22,
        PrStage::Resolve { .. } => 21,
        PrStage::KnownSnapshot { .. } => 20,
        PrStage::KnownSha { .. } => 19,
        PrStage::KnownVersion { .. } => 18,
        PrStage::KnownCount { .. } => 17,
        PrStage::KnownBase { .. } => 16,
        PrStage::DropPr { .. } => 15,
        PrStage::BaseLookup { .. } => 14,
        PrStage::BaseVersion { .. } => 13,
        PrStage::BaseFetch { .. } => 12,
        PrStage::BaseParse { .. } => 11,
        PrStage::BaseDrop { .. } => 10,
        PrStage::BaseClock { .. } => 9,
        PrStage::BaseInsert { .. } => 8,
        PrStage::BaseSections { .. } => 7,
        PrStage::BaseReferences { .. } => 6,
        PrStage::BaseIdlDefinitions { .. } => 5,
        PrStage::PageFetch { .. } => 4,
        PrStage::PageParse { .. } => 4,
        PrStage::PrClock { .. } => 3,
        PrStage::PrInsert { .. } => 2,
        PrStage::PrSections { .. } => 1,
        PrStage::PrReferences { .. } => 1,
        PrStage::PrIdlDefinitions { .. } => 1,
        PrStage::Finished(_) => 0,
    }
}

/// How many answers a stage that is passed for each page, or for each kind of
/// indexed data, is from the next one of the others.
pub open spec fn answers_left<E>(stage: PrStage<E>) -> nat {
    match stage {
        PrStage::PageFetch { work, done, .. } => (2 * (work.resolved.pages@.len()
            - done@.len())) as nat,
        PrStage::PageParse { work, done, .. } => (2 * (work.resolved.pages@.len() - done@.len())
            - 1) as nat,
        PrStage::PrSections { .. } => 3,
        PrStage::PrReferences { .. } => 2,
        PrStage::PrIdlDefinitions { .. } => 1,
        _ => 0,
    }
}

/// Every answer brings a run nearer to its end.
pub proof fn law_preview_ends<E>(
    request: PrRequest,
    stage: PrStage<E>,
    reply: Reply<E>,
    next: PrStage<E>,
)
    requires
        stage.well_formed(),
        pr_step(request, stage, reply, next),
    ensures
        next.well_formed(),
        stages_left(next) < stages_left(stage) || (stages_left(next) == stages_left(stage)
            && answers_left(next) < answers_left(stage)),
{
}

/// A run fails with the failure of a command, unless the provider of the
/// specification has no previews. Every failed command ends it, but for the
/// two that decide whether a snapshot is valid.
pub proof fn law_preview_failures_surface<E>(
    request: PrRequest,
    stage: PrStage<E>,
    reply: Reply<E>,
    next: PrStage<E>,
)
    requires
        pr_step(request, stage, reply, next),
    ensures
        reply matches Reply::Failed(e) ==> (failure_ends(stage) ==> next == PrStage::<E>::Finished(
            Err(Failure::Outside(e)),
        )),
        next matches PrStage::Finished(Err(failure)) ==> match failure {
            Failure::Outside(e) => reply == Reply::Failed(e),
            Failure::Detected(FetchError::UnsupportedProvider { provider }) => provider@
                == request.source.provider@ && provider@ != "whatwg"@,
            _ => false,
        },
{
}

/// Without force, a snapshot of the pull request that is valid, was indexed
/// within the last day and has its merge base stored is served at once: no
/// command goes to the network and none changes what is stored.
pub proof fn law_fresh_preview_is_served_offline<E>(
    request: PrRequest,
    stages: Seq<PrStage<E>>,
    replies: Seq<Reply<E>>,
    snapshot_id: i64,
    base_sha: String,
    indexed_at: String,
    now: Timestamp,
    base_id: i64,
)
    requires
        pr_run(request, stages, replies),
        !request.force,
        replies.len() >= 7,
        replies[1] == Reply::<E>::PrSnapshot(Some((snapshot_id, base_sha))),
        snapshot_current(version_read(replies[2])),
        has_sections(count_read(replies[3])),
        replies[4] == Reply::<E>::Text(indexed_at),
        instant_of(indexed_at@) is Some,
        replies[5] == Reply::<E>::Clock(now),
        fresh(instant_of(indexed_at@)->0, now@),
        replies[6] == Reply::<E>::Found(Some(base_id)),
    ensures
        replies.len() == 7,
        stages[7] == PrStage::<E>::Finished(Ok((snapshot_id, base_id))),
        forall|i: int|
            0 <= i < stages.len() ==> ((#[trigger] stages[i]).pending(request) matches Some(ask)
                ==> !uses_network(ask) && !changes_index(ask)),
{
    assert(pr_step(request, stages[0], replies[0], stages[1]));
    assert(answers(stages[0].pending(request)->0, replies[0]));
    assert(stages[1].pending(request) is Some) by {
        assert(answers(stages[1].pending(request)->0, replies[1]));
    }
    assert(stages[1] is FastSnapshot);
    assert(pr_step(request, stages[1], replies[1], stages[2]));
    assert(stages[2] is FastVersion);
    assert(pr_step(request, stages[2], replies[2], stages[3]));
    assert(stages[3] is FastCount);
    assert(pr_step(request, stages[3], replies[3], stages[4]));
    assert(stages[4] is FastIndexedAt);
    assert(pr_step(request, stages[4], replies[4], stages[5]));
    assert(stages[5] is FastClock);
    assert(pr_step(request, stages[5], replies[5], stages[6]));
    assert(stages[6] is FastBase);
    assert(pr_step(request, stages[6], replies[6], stages[7]));
    if replies.len() > 7 {
        assert(answers(stages[7].pending(request)->0, replies[7]));
        assert(stages[7].pending(request) is Some);
    }
}

/// The stages before a pull request is resolved.
spec fn before_resolution<E>(stage: PrStage<E>) -> bool {
    ||| stage is Register
    ||| stage is FastSnapshot
    ||| stage is FastVersion
    ||| stage is FastCount
    ||| stage is FastIndexedAt
    ||| stage is FastClock
    ||| stage is FastBase
    ||| stage is Finished
}

proof fn lemma_unsupported_stays_before_resolution<E>(
    request: PrRequest,
    stages: Seq<PrStage<E>>,
    replies: Seq<Reply<E>>,
    n: int,
)
    requires
        pr_run(request, stages, replies),
        request.source.provider@ != "whatwg"@,
        0 <= n < stages.len(),
    ensures
        before_resolution(stages[n]),
    decreases n,
{
    if n > 0 {
        lemma_unsupported_stays_before_resolution(request, stages, replies, n - 1);
        assert(pr_step(request, stages[n - 1], replies[n - 1], stages[n]));
    }
}

/// For a provider without previews no command goes to the network and none
/// changes what is stored of any index.
pub proof fn law_unsupported_provider_changes_nothing<E>(
    request: PrRequest,
    stages: Seq<PrStage<E>>,
    replies: Seq<Reply<E>>,
)
    requires
        pr_run(request, stages, replies),
        request.source.provider@ != "whatwg"@,
    ensures
        forall|i: int|
            0 <= i < stages.len() ==> ((#[trigger] stages[i]).pending(request) matches Some(ask)
                ==> !uses_network(ask) && !changes_index(ask)),
{
    assert forall|i: int| 0 <= i < stages.len() implies ((#[trigger] stages[i]).pending(
        request,
    ) matches Some(ask) ==> !uses_network(ask) && !changes_index(ask)) by {
        lemma_unsupported_stays_before_resolution(request, stages, replies, i);
    }
}

/// The stored snapshot of a merge base is deleted only once the page that
/// takes its place has been fetched and parsed: a failed fetch leaves it as it
/// was.
pub proof fn law_base_is_deleted_only_after_parse<E>(
    request: PrRequest,
    stages: Seq<PrStage<E>>,
    replies: Seq<Reply<E>>,
    n: int,
)
    requires
        pr_run(request, stages, replies),
        0 <= n < stages.len(),
        stages[n].pending(request) matches Some(ask) && ask is DeleteCommitSnapshot,
    ensures
        n >= 2,
        stages[n - 2] matches PrStage::BaseFetch { work, .. } && stages[n - 2].pending(request)
            == Some(Ask::FetchPage { url: work.resolved.base_html_url@ }),
        replies[n - 2] matches Reply::Html(html) && stages[n - 1].pending(request) == Some(
            Ask::ParseSpec {
                html: html@,
                spec_name: request.source.spec_name@,
                base_url: request.source.base_url@,
            },
        ),
        replies[n - 1] is Parsed,
{
    assert(stages[n] is BaseDrop);
    assert(n > 0);
    assert(pr_step(request, stages[n - 1], replies[n - 1], stages[n]));
    assert(stages[n - 1] is BaseParse);
    assert(n > 1);
    assert(pr_step(request, stages[n - 2], replies[n - 2], stages[n - 1]));
}

/// Where the snapshot of a merge base is inserted, none is stored under its
/// key any more: the lookup found none, or the one that it found has been
/// deleted since.
pub proof fn law_base_is_inserted_once<E>(
    request: PrRequest,
    stages: Seq<PrStage<E>>,
    replies: Seq<Reply<E>>,
    n: int,
    spec_id: i64,
    sha: Seq<char>,
    commit_date: Seq<char>,
)
    requires
        pr_run(request, stages, replies),
        0 <= n < stages.len(),
        stages[n].pending(request) == Some(Ask::InsertSnapshot { spec_id, sha, commit_date }),
    ensures
        exists|j: int|
            0 <= j < n && (#[trigger] stages[j]).pending(request) == Some(
                Ask::GetCommitSnapshot { spec_id, sha },
            ) && match replies[j] {
                Reply::Found(None) => true,
                Reply::Found(Some(id)) => {
                    &&& j < n - 2
                    &&& stages[n - 2].pending(request) == Some(
                        Ask::DeleteCommitSnapshot { snapshot_id: id },
                    )
                    &&& replies[n - 2] is Done
                },
                _ => false,
            },
{
    assert(stages[n] is BaseInsert);
    assert(n > 0);
    assert(pr_step(request, stages[n - 1], replies[n - 1], stages[n]));
    assert(stages[n - 1] is BaseClock);
    assert(n > 1);
    assert(pr_step(request, stages[n - 2], replies[n - 2], stages[n - 1]));
    let parse = if stages[n - 2] is BaseDrop {
        n - 3
    } else {
        n - 2
    };
    assert(n > 2);
    if stages[n - 2] is BaseDrop {
        assert(pr_step(request, stages[n - 3], replies[n - 3], stages[n - 2]));
    }
    assert(stages[parse] is BaseParse);
    assert(parse > 0);
    assert(pr_step(request, stages[parse - 1], replies[parse - 1], stages[parse]));
    assert(stages[parse - 1] is BaseFetch);
    assert(parse > 1);
    assert(pr_step(request, stages[parse - 2], replies[parse - 2], stages[parse - 1]));
    if stages[parse - 2] is BaseVersion {
        assert(parse > 2);
        assert(pr_step(request, stages[parse - 3], replies[parse - 3], stages[parse - 2]));
        assert(stages[parse - 3].pending(request) == Some(Ask::GetCommitSnapshot { spec_id, sha }));
    } else {
        assert(stages[parse - 2].pending(request) == Some(Ask::GetCommitSnapshot { spec_id, sha }));
    }
}

/// The stages that decide whether a stored snapshot is served.
spec fn deciding<E>(stage: PrStage<E>) -> bool {
    ||| before_resolution(stage) && !(stage is Finished)
    ||| stage is Resolve
    ||| stage is KnownSnapshot
    ||| stage is KnownSha
    ||| stage is KnownVersion
    ||| stage is KnownCount
    ||| stage is KnownBase
}

proof fn lemma_deciding_from_the_beginning<E>(
    request: PrRequest,
    stages: Seq<PrStage<E>>,
    replies: Seq<Reply<E>>,
    n: int,
)
    requires
        pr_run(request, stages, replies),
        0 <= n < stages.len(),
        deciding(stages[n]),
    ensures
        forall|i: int| 0 <= i <= n ==> deciding(#[trigger] stages[i]),
    decreases n,
{
    if n > 0 {
        assert(pr_step(request, stages[n - 1], replies[n - 1], stages[n]));
        assert(stages[n - 1].pending(request) is Some) by {
            assert(answers(stages[n - 1].pending(request)->0, replies[n - 1]));
        }
        assert(deciding(stages[n - 1]));
        lemma_deciding_from_the_beginning(request, stages, replies, n - 1);
    }
}

/// Where a pull request cannot be resolved, the run ends with that failure,
/// and nothing has changed what is stored of any index.
pub proof fn law_failed_resolution_changes_nothing<E>(
    request: PrRequest,
    stages: Seq<PrStage<E>>,
    replies: Seq<Reply<E>>,
    n: int,
)
    requires
        pr_run(request, stages, replies),
        0 <= n < replies.len(),
        stages[n] is Resolve,
        replies[n] is Failed,
    ensures
        replies.len() == n + 1,
        stages[n + 1] == PrStage::<E>::Finished(Err(Failure::Outside(replies[n]->Failed_0))),
        forall|i: int|
            0 <= i < stages.len() ==> ((#[trigger] stages[i]).pending(request) matches Some(ask)
                ==> !changes_index(ask)),
{
    assert(pr_step(request, stages[n], replies[n], stages[n + 1]));
    if replies.len() > n + 1 {
        assert(answers(stages[n + 1].pending(request)->0, replies[n + 1]));
        assert(stages[n + 1].pending(request) is Some);
    }
    lemma_deciding_from_the_beginning(request, stages, replies, n);
    assert forall|i: int| 0 <= i < stages.len() implies ((#[trigger] stages[i]).pending(
        request,
    ) matches Some(ask) ==> !changes_index(ask)) by {
        if i <= n {
            assert(deciding(stages[i]));
        }
    }
}

/// Once the pull request has been resolved, a valid snapshot whose key ends
/// with its head, short or full, is served with the merge base it was stored
/// with, if that is stored too: no page is fetched and nothing changes what is
/// stored.
pub proof fn law_unmoved_preview_is_kept<E>(
    request: PrRequest,
    stages: Seq<PrStage<E>>,
    replies: Seq<Reply<E>>,
    n: int,
    resolved: ResolvedPr,
    snapshot_id: i64,
    base_sha: String,
    key: String,
    base_id: i64,
)
    requires
        pr_run(request, stages, replies),
        0 <= n,
        replies.len() >= n + 6,
        stages[n] is Resolve,
        replies[n] == Reply::<E>::Resolved(resolved),
        replies[n + 1] == Reply::<E>::PrSnapshot(Some((snapshot_id, base_sha))),
        replies[n + 2] == Reply::<E>::Text(key),
        resolved.head_sha@.is_suffix_of(key@),
        snapshot_current(version_read(replies[n + 3])),
        has_sections(count_read(replies[n + 4])),
        replies[n + 5] == Reply::<E>::Found(Some(base_id)),
    ensures
        replies.len() == n + 6,
        stages[n + 6] == PrStage::<E>::Finished(Ok((snapshot_id, base_id))),
        stages[n + 5].pending(request) matches Some(Ask::GetCommitSnapshot { sha, .. }) && sha
            == base_sha@,
        forall|i: int|
            0 <= i < stages.len() ==> ((#[trigger] stages[i]).pending(request) matches Some(ask)
                ==> !(ask is FetchPage) && !changes_index(ask)),
{
    assert(pr_step(request, stages[n], replies[n], stages[n + 1]));
    assert(stages[n + 1] is KnownSnapshot);
    assert(pr_step(request, stages[n + 1], replies[n + 1], stages[n + 2]));
    assert(stages[n + 2] is KnownSha);
    assert(pr_step(request, stages[n + 2], replies[n + 2], stages[n + 3]));
    assert(stages[n + 3] is KnownVersion);
    assert(pr_step(request, stages[n + 3], replies[n + 3], stages[n + 4]));
    assert(stages[n + 4] is KnownCount);
    assert(pr_step(request, stages[n + 4], replies[n + 4], stages[n + 5]));
    assert(stages[n + 5] is KnownBase);
    assert(pr_step(request, stages[n + 5], replies[n + 5], stages[n + 6]));
    if replies.len() > n + 6 {
        assert(answers(stages[n + 6].pending(request)->0, replies[n + 6]));
        assert(stages[n + 6].pending(request) is Some);
    }
    lemma_deciding_from_the_beginning(request, stages, replies, n + 5);
    assert forall|i: int| 0 <= i < stages.len() implies ((#[trigger] stages[i]).pending(
        request,
    ) matches Some(ask) ==> !(ask is FetchPage) && !changes_index(ask)) by {
        if i <= n + 5 {
            assert(deciding(stages[i]));
        }
    }
}

/// At answers `j` and `j + 1` a snapshot was found valid: its index version was
/// read and is that of this build, and its sections were counted and are more
/// than none.
pub open spec fn valid_at<E>(
    request: PrRequest,
    stages: Seq<PrStage<E>>,
    replies: Seq<Reply<E>>,
    j: int,
    snapshot_id: i64,
) -> bool {
    &&& stages[j].pending(request) == Some(Ask::ReadIndexVersion { snapshot_id })
    &&& snapshot_current(version_read(replies[j]))
    &&& stages[j + 1].pending(request) == Some(Ask::CountSections { snapshot_id })
    &&& has_sections(count_read(replies[j + 1]))
}

/// Serves a stored snapshot on the fast path: its last answers, from `n` on,
/// found it with the SHA of its merge base, found it valid and fresh, and found
/// that merge base.
pub open spec fn served_fresh<E>(
    request: PrRequest,
    stages: Seq<PrStage<E>>,
    replies: Seq<Reply<E>>,
    n: int,
    pr_id: i64,
    base_id: i64,
) -> bool {
    &&& n == 1
    &&& replies.len() == n + 6
    &&& !request.force
    &&& replies[0] is Id
    &&& stages[n].pending(request) == Some(
        Ask::GetPrSnapshot {
            spec_name: request.source.spec_name@,
            pr_number: request.pr_number,
        },
    )
    &&& replies[n] matches Reply::PrSnapshot(Some((found, base_sha)))
    &&& found == pr_id
    &&& valid_at(request, stages, replies, n + 1, pr_id)
    &&& stages[n + 3].pending(request) == Some(Ask::ReadIndexedAt { snapshot_id: pr_id })
    &&& replies[n + 3] matches Reply::Text(indexed_at)
    &&& replies[n + 4] matches Reply::Clock(now)
    &&& instant_of(indexed_at@) is Some
    &&& fresh(instant_of(indexed_at@)->0, now@)
    &&& stages[n + 5].pending(request) == Some(
        Ask::GetCommitSnapshot { spec_id: replies[0]->Id_0, sha: base_sha@ },
    )
    &&& replies[n + 5] == Reply::<E>::Found(Some(base_id))
}

/// Serves a stored snapshot after resolution: its last answers, from `n` on,
/// resolved the pull request, found the snapshot with the SHA of its merge
/// base, found that its key ends with the head and that it is valid, and found
/// that merge base.
pub open spec fn served_unmoved<E>(
    request: PrRequest,
    stages: Seq<PrStage<E>>,
    replies: Seq<Reply<E>>,
    n: int,
    pr_id: i64,
    base_id: i64,
) -> bool {
    &&& n >= 1
    &&& replies.len() == n + 6
    &&& replies[0] is Id
    &&& stages[n] is Resolve
    &&& replies[n] matches Reply::Resolved(resolved)
    &&& stages[n + 1].pending(request) == Some(
        Ask::GetPrSnapshot {
            spec_name: request.source.spec_name@,
            pr_number: request.pr_number,
        },
    )
    &&& replies[n + 1] matches Reply::PrSnapshot(Some((found, base_sha)))
    &&& found == pr_id
    &&& stages[n + 2].pending(request) == Some(Ask::ReadSha { snapshot_id: pr_id })
    &&& replies[n + 2] matches Reply::Text(key)
    &&& resolved.head_sha@.is_suffix_of(key@)
    &&& valid_at(request, stages, replies, n + 3, pr_id)
    &&& stages[n + 5].pending(request) == Some(
        Ask::GetCommitSnapshot { spec_id: replies[0]->Id_0, sha: base_sha@ },
    )
    &&& replies[n + 5] == Reply::<E>::Found(Some(base_id))
}

/// The pull request that a stage works on, once it has been resolved and until
/// its snapshot is inserted.
pub open spec fn work_of<E>(stage: PrStage<E>) -> Option<PrWork> {
    match stage {
        PrStage::KnownSnapshot { work } => Some(work),
        PrStage::KnownSha { work, .. } => Some(work),
        PrStage::KnownVersion { work, .. } => Some(work),
        PrStage::KnownCount { work, .. } => Some(work),
        PrStage::KnownBase { work, .. } => Some(work),
        PrStage::DropPr { work } => Some(work),
        PrStage::BaseLookup { work } => Some(work),
        PrStage::BaseVersion { work, .. } => Some(work),
        PrStage::BaseFetch { work, .. } => Some(work),
        PrStage::BaseParse { work, .. } => Some(work),
        PrStage::BaseDrop { work, .. } => Some(work),
        PrStage::BaseClock { work, .. } => Some(work),
        PrStage::BaseInsert { work, .. } => Some(work),
        PrStage::BaseSections { work, .. } => Some(work),
        PrStage::BaseReferences { work, .. } => Some(work),
        PrStage::BaseIdlDefinitions { work, .. } => Some(work),
        PrStage::PageFetch { work, .. } => Some(work),
        PrStage::PageParse { work, .. } => Some(work),
        PrStage::PrClock { work, .. } => Some(work),
        PrStage::PrInsert { work, .. } => Some(work),
        _ => None,
    }
}

/// The specification of a stage, where it has one.
pub open spec fn spec_of<E>(stage: PrStage<E>) -> Option<i64> {
    match stage {
        PrStage::FastSnapshot { spec_id } => Some(spec_id),
        PrStage::FastVersion { spec_id, .. } => Some(spec_id),
        PrStage::FastCount { spec_id, .. } => Some(spec_id),
        PrStage::FastIndexedAt { spec_id, .. } => Some(spec_id),
        PrStage::FastClock { spec_id, .. } => Some(spec_id),
        PrStage::FastBase { spec_id, .. } => Some(spec_id),
        PrStage::Resolve { spec_id, .. } => Some(spec_id),
        _ => match work_of(stage) {
            Some(work) => Some(work.spec_id),
            None => None,
        },
    }
}

/// A run works on the specification that it was given at its beginning.
pub(crate) proof fn lemma_spec_stays<E>(
    request: PrRequest,
    stages: Seq<PrStage<E>>,
    replies: Seq<Reply<E>>,
    n: int,
)
    requires
        pr_run(request, stages, replies),
        0 <= n < stages.len(),
    ensures
        spec_of(stages[n]) matches Some(spec_id) ==> replies[0] == Reply::<E>::Id(spec_id),
        stages[n] is Register ==> n == 0,
    decreases n,
{
    if n > 0 {
        lemma_spec_stays(request, stages, replies, n - 1);
        assert(pr_step(request, stages[n - 1], replies[n - 1], stages[n]));
    }
}

/// The only way to the lookup of the merge base on the fast path.
proof fn lemma_served_fresh<E>(
    request: PrRequest,
    stages: Seq<PrStage<E>>,
    replies: Seq<Reply<E>>,
    pr_id: i64,
    base_id: i64,
)
    requires
        pr_run(request, stages, replies),
        stages.len() >= 2,
        stages.last() == PrStage::<E>::Finished(Ok((pr_id, base_id))),
        stages[stages.len() - 2] is FastBase,
    ensures
        served_fresh(request, stages, replies, replies.len() - 6, pr_id, base_id),
{
    let n = replies.len() - 6;
    lemma_spec_stays(request, stages, replies, n + 5);
    assert(pr_step(request, stages[n + 5], replies[n + 5], stages[n + 6]));
    assert(n + 5 > 0);
    assert(pr_step(request, stages[n + 4], replies[n + 4], stages[n + 5]));
    assert(stages[n + 4] is FastClock);
    assert(pr_step(request, stages[n + 3], replies[n + 3], stages[n + 4]));
    assert(stages[n + 3] is FastIndexedAt);
    assert(pr_step(request, stages[n + 2], replies[n + 2], stages[n + 3]));
    assert(stages[n + 2] is FastCount);
    assert(pr_step(request, stages[n + 1], replies[n + 1], stages[n + 2]));
    assert(stages[n + 1] is FastVersion);
    assert(pr_step(request, stages[n], replies[n], stages[n + 1]));
    assert(stages[n] is FastSnapshot);
    assert(pr_step(request, stages[n - 1], replies[n - 1], stages[n]));
    assert(stages[n - 1] is Register);
    if n - 1 > 0 {
        assert(pr_step(request, stages[n - 2], replies[n - 2], stages[n - 1]));
    }
}

/// The only way to the lookup of the merge base after resolution.
proof fn lemma_served_unmoved<E>(
    request: PrRequest,
    stages: Seq<PrStage<E>>,
    replies: Seq<Reply<E>>,
    pr_id: i64,
    base_id: i64,
)
    requires
        pr_run(request, stages, replies),
        stages.len() >= 2,
        stages.last() == PrStage::<E>::Finished(Ok((pr_id, base_id))),
        stages[stages.len() - 2] is KnownBase,
    ensures
        served_unmoved(request, stages, replies, replies.len() - 6, pr_id, base_id),
{
    let n = replies.len() - 6;
    lemma_spec_stays(request, stages, replies, n + 5);
    assert(pr_step(request, stages[n + 5], replies[n + 5], stages[n + 6]));
    assert(n + 5 > 0);
    assert(pr_step(request, stages[n + 4], replies[n + 4], stages[n + 5]));
    assert(stages[n + 4] is KnownCount);
    assert(pr_step(request, stages[n + 3], replies[n + 3], stages[n + 4]));
    assert(stages[n + 3] is KnownVersion);
    assert(pr_step(request, stages[n + 2], replies[n + 2], stages[n + 3]));
    assert(stages[n + 2] is KnownSha);
    assert(pr_step(request, stages[n + 1], replies[n + 1], stages[n + 2]));
    assert(stages[n + 1] is KnownSnapshot);
    assert(pr_step(request, stages[n], replies[n], stages[n + 1]));
    assert(stages[n] is Resolve);
}

/// A run that ends with a snapshot of the pull request ends in one of three
/// ways. It serves a stored snapshot that was found valid and was indexed
/// within the last day; or one that was found valid and is of the head that the
/// pull request has. Then nothing has changed what is stored of any index.
/// Otherwise the snapshot is a new one, whose interface definitions were
/// inserted last.
pub proof fn law_kept_preview<E>(
    request: PrRequest,
    stages: Seq<PrStage<E>>,
    replies: Seq<Reply<E>>,
    pr_id: i64,
    base_id: i64,
)
    requires
        pr_run(request, stages, replies),
        stages.last() == PrStage::<E>::Finished(Ok((pr_id, base_id))),
    ensures
        stages.len() >= 2,
        ({
            let n = replies.len() - 6;
            let unchanged = forall|i: int|
                0 <= i < stages.len() ==> ((#[trigger] stages[i]).pending(request) matches Some(ask)
                    ==> !changes_index(ask));
            ||| unchanged && served_fresh(request, stages, replies, n, pr_id, base_id)
            ||| unchanged && served_unmoved(request, stages, replies, n, pr_id, base_id)
            ||| stages[stages.len() - 2] is PrIdlDefinitions && replies.last() is Done
        }),
{
    let n = stages.len() - 2;
    assert(n >= 0);
    assert(pr_step(request, stages[n], replies[n], stages[n + 1]));
    if deciding(stages[n]) {
        lemma_deciding_from_the_beginning(request, stages, replies, n);
        assert forall|i: int| 0 <= i < stages.len() implies ((#[trigger] stages[i]).pending(
            request,
        ) matches Some(ask) ==> !changes_index(ask)) by {
            if i <= n {
                assert(deciding(stages[i]));
            }
        }
        if stages[n] is FastBase {
            lemma_served_fresh(request, stages, replies, pr_id, base_id);
        } else {
            lemma_served_unmoved(request, stages, replies, pr_id, base_id);
        }
    }
}

/// At answer `j` it came out that no snapshot of the pull request is stored:
/// none was found after it had been resolved, or what was stored of it has
/// been deleted.
pub open spec fn cleared_at<E>(
    request: PrRequest,
    stages: Seq<PrStage<E>>,
    replies: Seq<Reply<E>>,
    j: int,
    spec_id: i64,
) -> bool {
    match stages[j].pending(request) {
        Some(Ask::GetPrSnapshot { spec_name, pr_number }) => {
            &&& stages[j] is KnownSnapshot
            &&& spec_name == request.source.spec_name@
            &&& pr_number == request.pr_number
            &&& replies[j] == Reply::<E>::PrSnapshot(None)
        },
        Some(Ask::DeletePrData { spec_id: s, pr_number }) => {
            &&& s == spec_id
            &&& pr_number == request.pr_number
            &&& replies[j] is Done
        },
        _ => false,
    }
}

/// Before answer `n` it came out that no snapshot of the pull request is
/// stored.
pub open spec fn preview_cleared<E>(
    request: PrRequest,
    stages: Seq<PrStage<E>>,
    replies: Seq<Reply<E>>,
    n: int,
    spec_id: i64,
) -> bool {
    exists|j: int| 0 <= j < n && #[trigger] cleared_at(
        request,
        stages,
        replies,
        j,
        spec_id,
    )
}

/// At answer `j` the pull request was resolved to what `work` holds.
pub open spec fn resolved_at<E>(
    request: PrRequest,
    stages: Seq<PrStage<E>>,
    replies: Seq<Reply<E>>,
    j: int,
    work: PrWork,
) -> bool {
    &&& stages[j].pending(request) == Some(
        Ask::Resolve {
            resolver: PrProvider::Whatwg,
            spec_name: request.source.spec_name@,
            base_url: request.source.base_url@,
            pr_number: request.pr_number,
        },
    )
    &&& stages[j]->Resolve_spec_id == work.spec_id
    &&& replies[j] == Reply::<E>::Resolved(work.resolved)
}

/// Before answer `n` the pull request was resolved to what `work` holds.
pub open spec fn work_resolved<E>(
    request: PrRequest,
    stages: Seq<PrStage<E>>,
    replies: Seq<Reply<E>>,
    n: int,
    work: PrWork,
) -> bool {
    exists|j: int| 0 <= j < n && #[trigger] resolved_at(request, stages, replies, j, work)
}

/// At answer `j` it came out that `base_id` is the snapshot of the merge base
/// and of this build: it has been inserted under the SHA of the merge base, or
/// it has been found under it and its index version, read next, is current.
pub open spec fn base_at<E>(
    request: PrRequest,
    stages: Seq<PrStage<E>>,
    replies: Seq<Reply<E>>,
    j: int,
    work: PrWork,
    base_id: i64,
) -> bool {
    let base_sha = work.resolved.merge_base_sha@;
    match stages[j].pending(request) {
        Some(Ask::InsertSnapshot { spec_id, sha, .. }) => {
            &&& spec_id == work.spec_id
            &&& sha == base_sha
            &&& replies[j] == Reply::<E>::Id(base_id)
        },
        Some(Ask::ReadIndexVersion { snapshot_id }) => {
            &&& snapshot_id == base_id
            &&& snapshot_current(version_read(replies[j]))
            &&& j > 0
            &&& stages[j - 1].pending(request) == Some(
                Ask::GetCommitSnapshot { spec_id: work.spec_id, sha: base_sha },
            )
            &&& replies[j - 1] == Reply::<E>::Found(Some(base_id))
        },
        _ => false,
    }
}

/// Before answer `n` it came out that `base_id` is the snapshot of the merge
/// base and of this build.
pub open spec fn base_current<E>(
    request: PrRequest,
    stages: Seq<PrStage<E>>,
    replies: Seq<Reply<E>>,
    n: int,
    work: PrWork,
    base_id: i64,
) -> bool {
    exists|j: int| 0 <= j < n && #[trigger] base_at(request, stages, replies, j, work, base_id)
}

/// The page was fetched and then parsed, at answers `j` and `j + 1`.
pub open spec fn page_parsed_at<E>(
    request: PrRequest,
    stages: Seq<PrStage<E>>,
    replies: Seq<Reply<E>>,
    j: int,
    url: Seq<char>,
    parsed: ParsedSpec,
) -> bool {
    &&& stages[j].pending(request) == Some(Ask::FetchPage { url })
    &&& replies[j] matches Reply::Html(html)
    &&& stages[j + 1].pending(request) == Some(
        Ask::ParseSpec {
            html: html@,
            spec_name: request.source.spec_name@,
            base_url: request.source.base_url@,
        },
    )
    &&& replies[j + 1] == Reply::<E>::Parsed(parsed)
}

/// The page was fetched and parsed before answer `n`.
pub open spec fn page_parsed<E>(
    request: PrRequest,
    stages: Seq<PrStage<E>>,
    replies: Seq<Reply<E>>,
    n: int,
    url: Seq<char>,
    parsed: ParsedSpec,
) -> bool {
    exists|j: int|
        0 <= j < n - 1 && #[trigger] page_parsed_at(request, stages, replies, j, url, parsed)
}

/// `parsed` are the first pages of a preview, each fetched from its URL and parsed
/// before answer `n`.
pub open spec fn pages_parsed<E>(
    request: PrRequest,
    stages: Seq<PrStage<E>>,
    replies: Seq<Reply<E>>,
    n: int,
    work: PrWork,
    parsed: Seq<ParsedSpec>,
) -> bool {
    &&& parsed.len() <= work.resolved.pages@.len()
    &&& forall|i: int|
        0 <= i < parsed.len() ==> page_parsed(
            request,
            stages,
            replies,
            n,
            work.resolved.pages@[i].url@,
            #[trigger] parsed[i],
        )
}

/// `merged` is merged from all the pages of a preview, each fetched from its
/// URL and parsed before answer `n`.
pub open spec fn preview_merged<E>(
    request: PrRequest,
    stages: Seq<PrStage<E>>,
    replies: Seq<Reply<E>>,
    n: int,
    work: PrWork,
    merged: ParsedSpec,
) -> bool {
    exists|pages: Seq<ParsedSpec>| #[trigger]
        pages_parsed(request, stages, replies, n, work, pages) && pages.len()
            == work.resolved.pages@.len() && merged_from(pages, merged)
}

/// What has come about where a run is past the decision on what is stored.
spec fn history<E>(
    request: PrRequest,
    stages: Seq<PrStage<E>>,
    replies: Seq<Reply<E>>,
    n: int,
) -> bool {
    let at = stages[n];
    &&& at.well_formed()
    &&& work_of(at) matches Some(work) ==> work_resolved(request, stages, replies, n, work)
    &&& match at {
        PrStage::BaseVersion { work, found } => {
            &&& preview_cleared(request, stages, replies, n, work.spec_id)
            &&& n > 0
            &&& stages[n - 1] == (PrStage::<E>::BaseLookup { work })
            &&& replies[n - 1] == Reply::<E>::Found(Some(found))
        },
        PrStage::BaseLookup { work } | PrStage::BaseFetch { work, .. } | PrStage::BaseParse { work, .. } | PrStage::BaseDrop { work, .. } | PrStage::BaseClock {
            work,
            ..
        } | PrStage::BaseInsert { work, .. } => preview_cleared(
            request,
            stages,
            replies,
            n,
            work.spec_id,
        ),
        PrStage::BaseSections { work, base_id, .. } | PrStage::BaseReferences {
            work,
            base_id,
            ..
        } | PrStage::BaseIdlDefinitions { work, base_id, .. } => {
            &&& preview_cleared(request, stages, replies, n, work.spec_id)
            &&& base_current(request, stages, replies, n, work, base_id)
        },
        PrStage::PageFetch { work, base_id, done } => {
            &&& preview_cleared(request, stages, replies, n, work.spec_id)
            &&& base_current(request, stages, replies, n, work, base_id)
            &&& pages_parsed(request, stages, replies, n, work, done@)
        },
        PrStage::PageParse { work, base_id, done, html } => {
            &&& preview_cleared(request, stages, replies, n, work.spec_id)
            &&& base_current(request, stages, replies, n, work, base_id)
            &&& pages_parsed(request, stages, replies, n, work, done@)
            &&& n > 0
            &&& stages[n - 1] == (PrStage::<E>::PageFetch { work, base_id, done })
            &&& replies[n - 1] == Reply::<E>::Html(html)
        },
        PrStage::PrClock { work, base_id, merged } | PrStage::PrInsert {
            work,
            base_id,
            merged,
            ..
        } => {
            &&& preview_cleared(request, stages, replies, n, work.spec_id)
            &&& base_current(request, stages, replies, n, work, base_id)
            &&& preview_merged(request, stages, replies, n, work, merged)
        },
        _ => true,
    }
}

proof fn lemma_pages_stay<E>(
    request: PrRequest,
    stages: Seq<PrStage<E>>,
    replies: Seq<Reply<E>>,
    n: int,
    work: PrWork,
    parsed: Seq<ParsedSpec>,
)
    requires
        pages_parsed(request, stages, replies, n, work, parsed),
    ensures
        pages_parsed(request, stages, replies, n + 1, work, parsed),
{
    assert forall|i: int| 0 <= i < parsed.len() implies page_parsed(
        request,
        stages,
        replies,
        n + 1,
        work.resolved.pages@[i].url@,
        #[trigger] parsed[i],
    ) by {
        assert(page_parsed(
            request,
            stages,
            replies,
            n,
            work.resolved.pages@[i].url@,
            parsed[i],
        ));
    }
}

/// The history of a stage, where its page is the one parsed last.
proof fn lemma_history_of_pages<E>(
    request: PrRequest,
    stages: Seq<PrStage<E>>,
    replies: Seq<Reply<E>>,
    n: int,
)
    requires
        pr_run(request, stages, replies),
        0 < n < stages.len(),
        stages[n - 1] is PageParse,
        replies[n - 1] is Parsed,
        history(request, stages, replies, n - 1),
    ensures
        history(request, stages, replies, n),
{
    let work = stages[n - 1]->PageParse_work;
    let done = stages[n - 1]->PageParse_done@;
    let page = replies[n - 1]->Parsed_0;
    let parsed = done.push(page);
    assert(pr_step(request, stages[n - 1], replies[n - 1], stages[n]));
    lemma_pages_stay(request, stages, replies, n - 1, work, done);
    assert(page_parsed_at(
        request,
        stages,
        replies,
        n - 2,
        work.resolved.pages@[done.len() as int].url@,
        page,
    ));
    assert forall|i: int| 0 <= i < parsed.len() implies page_parsed(
        request,
        stages,
        replies,
        n,
        work.resolved.pages@[i].url@,
        #[trigger] parsed[i],
    ) by {
        if i < done.len() {
            assert(parsed[i] == done[i]);
        }
    }
    assert(pages_parsed(request, stages, replies, n, work, parsed));
}

proof fn lemma_history<E>(
    request: PrRequest,
    stages: Seq<PrStage<E>>,
    replies: Seq<Reply<E>>,
    n: int,
)
    requires
        pr_run(request, stages, replies),
        0 <= n < stages.len(),
    ensures
        history(request, stages, replies, n),
    decreases n,
{
    if n > 0 {
        lemma_history(request, stages, replies, n - 1);
        let before = stages[n - 1];
        let answer = replies[n - 1];
        assert(pr_step(request, before, answer, stages[n]));
        if before is PageParse {
            if answer is Parsed {
                lemma_history_of_pages(request, stages, replies, n);
            }
        } else {
            match before {
                PrStage::Resolve { spec_id, .. } => {
                    if answer is Resolved {
                        let work = PrWork { spec_id, resolved: answer->Resolved_0 };
                        assert(resolved_at(request, stages, replies, n - 1, work));
                    }
                },
                PrStage::KnownSnapshot { work } | PrStage::DropPr { work } => {
                    assert(cleared_at(request, stages, replies, n - 1, work.spec_id) || !(
                    stages[n] is BaseLookup));
                },
                PrStage::BaseInsert { work, .. } => {
                    if answer is Id {
                        assert(base_at(request, stages, replies, n - 1, work, answer->Id_0));
                    }
                },
                PrStage::BaseVersion { work, found } => {
                    assert(base_at(request, stages, replies, n - 1, work, found)
                        || stages[n] is BaseFetch);
                    assert(pages_parsed(request, stages, replies, n, work, Seq::empty()));
                },
                PrStage::BaseIdlDefinitions { work, .. } => {
                    assert(pages_parsed(request, stages, replies, n, work, Seq::empty()));
                },
                PrStage::PageFetch { work, done, .. } => {
                    lemma_pages_stay(request, stages, replies, n - 1, work, done@);
                },
                PrStage::PrClock { work, merged, .. } => {
                    let pages = choose|pages: Seq<ParsedSpec>| #[trigger]
                        pages_parsed(request, stages, replies, n - 1, work, pages) && pages.len()
                            == work.resolved.pages@.len() && merged_from(pages, merged);
                    lemma_pages_stay(request, stages, replies, n - 1, work, pages);
                },
                _ => {},
            }
        }
    }
}

/// A run that ends with a new snapshot of the pull request has resolved it, and
/// has inserted the snapshot under the key of its head and with the paths of its
/// pages, where no snapshot of the pull request was stored any more. Its data is
/// merged from all the pages of the preview, each fetched and parsed. The
/// snapshot of the merge base was inserted or found under the SHA that the pull
/// request was resolved to, and is of this build.
pub proof fn law_new_preview<E>(
    request: PrRequest,
    stages: Seq<PrStage<E>>,
    replies: Seq<Reply<E>>,
    pr_id: i64,
    base_id: i64,
)
    requires
        pr_run(request, stages, replies),
        stages.len() >= 2,
        stages.last() == PrStage::<E>::Finished(Ok((pr_id, base_id))),
        stages[stages.len() - 2] is PrIdlDefinitions,
    ensures
        stages.len() > 6,
        ({
            let n = stages.len() - 5;
            &&& stages[n] matches PrStage::PrInsert { work, merged, .. }
            &&& stages[n - 1].pending(request) == Some(Ask::ReadClock)
            &&& replies[n - 1] matches Reply::Clock(now)
            &&& stages[n].pending(request) == Some(
                Ask::InsertPrSnapshot {
                    spec_id: work.spec_id,
                    sha: pr_key(request.pr_number as int, work.resolved.head_sha@),
                    commit_date: rfc3339_text(now@),
                    pr_number: request.pr_number,
                    merge_base_sha: work.resolved.merge_base_sha@,
                    page_paths: page_paths_of(work.resolved.pages@),
                },
            )
            &&& replies[n] == Reply::<E>::Id(pr_id)
            &&& stages[n + 1].pending(request) == Some(
                Ask::InsertSections { snapshot_id: pr_id, sections: merged.sections@ },
            )
            &&& stages[n + 2].pending(request) == Some(
                Ask::InsertReferences { snapshot_id: pr_id, references: merged.references@ },
            )
            &&& stages[n + 3].pending(request) == Some(
                Ask::InsertIdlDefinitions {
                    snapshot_id: pr_id,
                    idl_definitions: merged.idl_definitions@,
                },
            )
            &&& replies[0] == Reply::<E>::Id(work.spec_id)
            &&& work_resolved(request, stages, replies, n, work)
            &&& preview_cleared(request, stages, replies, n, work.spec_id)
            &&& base_current(request, stages, replies, n, work, base_id)
            &&& preview_merged(request, stages, replies, n, work, merged)
        }),
{
    let last = stages.len() - 1;
    assert(pr_step(request, stages[last - 1], replies[last - 1], stages[last]));
    assert(last > 1);
    assert(pr_step(request, stages[last - 2], replies[last - 2], stages[last - 1]));
    assert(stages[last - 2] is PrReferences);
    assert(last > 2);
    assert(pr_step(request, stages[last - 3], replies[last - 3], stages[last - 2]));
    assert(stages[last - 3] is PrSections);
    assert(last > 3);
    assert(pr_step(request, stages[last - 4], replies[last - 4], stages[last - 3]));
    assert(stages[last - 4] is PrInsert);
    assert(last > 4);
    assert(pr_step(request, stages[last - 5], replies[last - 5], stages[last - 4]));
    assert(stages[last - 5] is PrClock);
    assert(last > 5);
    lemma_spec_stays(request, stages, replies, last - 4);
    lemma_history(request, stages, replies, last - 4);
}

/// What a store answers that holds what an indexing of the pull request left
/// behind, and has not been touched since: the same specification; the snapshot
/// of the pull request, with the SHA of the merge base that it was inserted
/// with, of this build, with the sections that were inserted and indexed at
/// `indexed_at`; and the snapshot of the merge base under that SHA.
pub open spec fn left_behind<E>(
    request: PrRequest,
    work: PrWork,
    merged: ParsedSpec,
    pr_id: i64,
    base_id: i64,
    indexed_at: Instant,
    ask: Ask,
    reply: Reply<E>,
) -> bool {
    let base_sha = work.resolved.merge_base_sha@;
    match ask {
        Ask::InsertOrGetSpec { .. } => ask == request.source.ask() ==> reply == Reply::<E>::Id(
            work.spec_id,
        ),
        Ask::GetPrSnapshot { spec_name, pr_number } => spec_name == request.source.spec_name@
            && pr_number == request.pr_number ==> (reply matches Reply::PrSnapshot(Some((id, sha)))
            && id == pr_id && sha@ == base_sha),
        Ask::ReadIndexVersion { snapshot_id } => snapshot_id == pr_id ==> snapshot_current(
            version_read(reply),
        ),
        Ask::CountSections { snapshot_id } => snapshot_id == pr_id ==> (reply matches Reply::Count(
            count,
        ) && count == merged.sections@.len()),
        Ask::ReadIndexedAt { snapshot_id } => snapshot_id == pr_id ==> (reply matches Reply::Text(
            text,
        ) && instant_of(text@) == Some(indexed_at)),
        Ask::GetCommitSnapshot { spec_id, sha } => spec_id == work.spec_id && sha == base_sha
            ==> reply == Reply::<E>::Found(Some(base_id)),
        _ => true,
    }
}

/// Two requests are for the same pull request of the same specification.
pub open spec fn same_preview(a: PrRequest, b: PrRequest) -> bool {
    &&& a.source.spec_name@ == b.source.spec_name@
    &&& a.source.base_url@ == b.source.base_url@
    &&& a.source.provider@ == b.source.provider@
    &&& a.pr_number == b.pr_number
}

/// A pull request that one run has indexed anew, with at least one section on
/// its pages, is served by a later run that is not forced, within a day of its
/// indexing and with the store untouched in between: the later run ends with
/// the same two snapshots, no command of it goes to the network and none
/// changes what is stored.
pub proof fn law_indexed_preview_is_served_again<E>(
    request: PrRequest,
    stages: Seq<PrStage<E>>,
    replies: Seq<Reply<E>>,
    pr_id: i64,
    base_id: i64,
    indexed_at: Instant,
    again: PrRequest,
    later: Seq<PrStage<E>>,
    answered: Seq<Reply<E>>,
)
    requires
        pr_run(request, stages, replies),
        stages.len() >= 2,
        stages.last() == PrStage::<E>::Finished(Ok((pr_id, base_id))),
        stages[stages.len() - 2] is PrIdlDefinitions,
        stages[stages.len() - 5]->PrInsert_merged.sections@.len() > 0,
        same_preview(request, again),
        !again.force,
        pr_run(again, later, answered),
        forall|i: int|
            0 <= i < answered.len() ==> left_behind(
                request,
                stages[stages.len() - 5]->PrInsert_work,
                stages[stages.len() - 5]->PrInsert_merged,
                pr_id,
                base_id,
                indexed_at,
                later[i].pending(again)->0,
                #[trigger] answered[i],
            ),
        forall|i: int|
            0 <= i < answered.len() ==> ((#[trigger] answered[i]) matches Reply::Clock(now)
                ==> fresh(indexed_at, now@)),
    ensures
        answered.len() <= 7,
        later.last() is Finished <==> answered.len() == 7,
        later.last() is Finished ==> later.last() == PrStage::<E>::Finished(Ok((pr_id, base_id))),
        forall|i: int|
            0 <= i < later.len() ==> ((#[trigger] later[i]).pending(again) matches Some(ask)
                ==> !uses_network(ask) && !changes_index(ask)),
{
    law_new_preview(request, stages, replies, pr_id, base_id);
    let work = stages[stages.len() - 5]->PrInsert_work;
    assert(later[0] is Register);
    if answered.len() > 0 {
        lemma_served_step(request, again, later, answered, 0);
        assert(later[1] == (PrStage::<E>::FastSnapshot { spec_id: work.spec_id }));
    }
    if answered.len() > 1 {
        lemma_served_step(request, again, later, answered, 1);
        assert(later[2] is FastVersion && later[2]->FastVersion_cached.snapshot_id == pr_id);
    }
    if answered.len() > 2 {
        lemma_served_step(request, again, later, answered, 2);
        assert(later[3] is FastCount);
    }
    if answered.len() > 3 {
        lemma_served_step(request, again, later, answered, 3);
        assert(later[4] is FastIndexedAt);
    }
    if answered.len() > 4 {
        lemma_served_step(request, again, later, answered, 4);
        assert(later[5] is FastClock);
    }
    if answered.len() > 5 {
        lemma_served_step(request, again, later, answered, 5);
        assert(later[6] is FastBase);
    }
    if answered.len() > 6 {
        lemma_served_step(request, again, later, answered, 6);
        assert(later[7] == PrStage::<E>::Finished(Ok((pr_id, base_id))));
    }
    if answered.len() > 7 {
        lemma_served_step(request, again, later, answered, 7);
    }
}

/// One step of a run.
proof fn lemma_served_step<E>(
    request: PrRequest,
    again: PrRequest,
    later: Seq<PrStage<E>>,
    answered: Seq<Reply<E>>,
    n: int,
)
    requires
        pr_run(again, later, answered),
        same_preview(request, again),
        0 <= n < answered.len(),
    ensures
        later[n].pending(again) is Some,
        answers(later[n].pending(again)->0, answered[n]),
        pr_step(again, later[n], answered[n], later[n + 1]),
        request.source.ask() == again.source.ask(),
{
    let answer = answered[n];
}

} // verus!
