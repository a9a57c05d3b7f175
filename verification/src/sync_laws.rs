//! What holds of every sync from its first command to its last.

use crate::digest::content_hash;
use crate::model::{UpdateCheckState, INDEX_VERSION};
use crate::protocol::{answers, changes_index, uses_network, Ask, Reply};
use crate::sync::{
    cache_current, cache_serves, index_start, is_current_version, optional_string,
    records, sync_step, unchanged, CheckRow, IndexStage, SyncRequest, SyncStage,
};
use crate::time::{fresh, in_four_digit_year, instant_of, rfc3339_text, Instant, Timestamp};
use vstd::prelude::*;

verus! {

/// `stages` are the stages of a sync from its beginning, and `replies` the
/// answers that led from each to the next.
pub open spec fn sync_run<E>(
    request: SyncRequest,
    stages: Seq<SyncStage<E>>,
    replies: Seq<Reply<E>>,
) -> bool {
    &&& stages.len() == replies.len() + 1
    &&& stages[0] == SyncStage::<E>::Register
    &&& forall|i: int|
        0 <= i < replies.len() ==> {
            &&& stages[i].pending(request) is Some
            &&& answers(stages[i].pending(request)->0, #[trigger] replies[i])
            &&& sync_step(request, stages[i], replies[i], stages[i + 1])
        }
}

/// How many answers a sync has had that stands at `stage`, and thirteen where
/// it is over.
pub open spec fn sync_place<E>(stage: SyncStage<E>) -> int {
    match stage {
        SyncStage::Register => 0,
        SyncStage::FindSnapshot { .. } => 1,
        SyncStage::FindCheck { .. } => 2,
        SyncStage::Clock { .. } => 3,
        SyncStage::Fetch { .. } => 4,
        SyncStage::Index(IndexStage::Unchanged { .. }) => 5,
        SyncStage::Index(IndexStage::Parse { .. }) => 5,
        SyncStage::Index(IndexStage::Clear { .. }) => 6,
        SyncStage::Index(IndexStage::Register { .. }) => 7,
        SyncStage::Index(IndexStage::Insert { .. }) => 8,
        SyncStage::Index(IndexStage::Sections { .. }) => 9,
        SyncStage::Index(IndexStage::References { .. }) => 10,
        SyncStage::Index(IndexStage::IdlDefinitions { .. }) => 11,
        SyncStage::Index(IndexStage::Record { .. }) => 12,
        SyncStage::Index(IndexStage::Finished(_)) => 13,
        SyncStage::Finished(_) => 13,
    }
}

/// Every answer brings a sync nearer to its end.
pub proof fn law_sync_ends<E>(
    request: SyncRequest,
    stage: SyncStage<E>,
    reply: Reply<E>,
    next: SyncStage<E>,
)
    requires
        sync_step(request, stage, reply, next),
    ensures
        sync_place(stage) < sync_place(next) <= 13,
{
}

/// Until a run is over, its place is the number of its answers.
pub(crate) proof fn lemma_stage_by_number<E>(
    request: SyncRequest,
    stages: Seq<SyncStage<E>>,
    replies: Seq<Reply<E>>,
    n: int,
)
    requires
        sync_run(request, stages, replies),
        0 <= n < stages.len(),
    ensures
        stages[n] is Finished || sync_place(stages[n]) == n,
        n <= 13,
        !(stages[n] matches SyncStage::Index(stage) && stage is Finished),
        n < stages.len() - 1 ==> !(stages[n] is Finished),
    decreases n,
{
    if n < stages.len() - 1 {
        let answer = replies[n];
        assert(sync_step(request, stages[n], answer, stages[n + 1]));
    }
    if n > 0 {
        lemma_stage_by_number(request, stages, replies, n - 1);
        let answer = replies[n - 1];
        assert(sync_step(request, stages[n - 1], answer, stages[n]));
        assert(answers(stages[n - 1].pending(request)->0, answer));
    }
}

/// A sync performs thirteen commands at most.
pub proof fn law_sync_is_bounded<E>(
    request: SyncRequest,
    stages: Seq<SyncStage<E>>,
    replies: Seq<Reply<E>>,
)
    requires
        sync_run(request, stages, replies),
    ensures
        replies.len() <= 13,
        replies.len() == 13 ==> stages.last() is Finished,
{
    lemma_stage_by_number(request, stages, replies, stages.len() - 1);
}

/// Indexed data is neither deleted nor added before the fetched page has been
/// parsed: where the page cannot be fetched or parsed, the index stays as it
/// was.
pub proof fn law_index_is_untouched_until_parsed<E>(
    request: SyncRequest,
    stages: Seq<SyncStage<E>>,
    replies: Seq<Reply<E>>,
    n: int,
)
    requires
        sync_run(request, stages, replies),
        0 <= n < stages.len(),
        stages[n].pending(request) matches Some(ask) && changes_index(ask),
    ensures
        n > 5,
        stages[4].pending(request) == Some(Ask::FetchLive { base_url: request.source.base_url@ }),
        replies[4] matches Reply::Html(html) && stages[5].pending(request) == Some(
            Ask::ParseSpec {
                html: html@,
                spec_name: request.source.spec_name@,
                base_url: request.source.base_url@,
            },
        ),
        replies[5] is Parsed,
{
    lemma_stage_by_number(request, stages, replies, n);
    lemma_stage_by_number(request, stages, replies, 4);
    lemma_stage_by_number(request, stages, replies, 5);
    lemma_stage_by_number(request, stages, replies, 6);
    assert(sync_step(request, stages[4], replies[4], stages[5]));
    assert(sync_step(request, stages[5], replies[5], stages[6]));
}

/// Without force, a snapshot whose last check is fresh and whose index is of
/// this build is served at once: no command goes to the network and none
/// changes what is stored of the index.
pub proof fn law_current_cache_is_served_offline<E>(
    request: SyncRequest,
    stages: Seq<SyncStage<E>>,
    replies: Seq<Reply<E>>,
    snapshot_id: i64,
    state: UpdateCheckState,
    now: Timestamp,
)
    requires
        sync_run(request, stages, replies),
        !request.force,
        replies.len() >= 4,
        replies[1] == Reply::<E>::Found(Some(snapshot_id)),
        replies[2] == Reply::<E>::UpdateCheck(Some(state)),
        replies[3] == Reply::<E>::Clock(now),
        cache_current(state, now@),
    ensures
        replies.len() == 4,
        stages[4] == SyncStage::<E>::Finished(Ok((snapshot_id, false))),
        forall|i: int|
            0 <= i < stages.len() ==> ((#[trigger] stages[i]).pending(request) matches Some(ask)
                ==> !uses_network(ask) && !changes_index(ask)),
{
    lemma_stage_by_number(request, stages, replies, 0);
    lemma_stage_by_number(request, stages, replies, 1);
    lemma_stage_by_number(request, stages, replies, 2);
    lemma_stage_by_number(request, stages, replies, 3);
    lemma_stage_by_number(request, stages, replies, 4);
    assert(sync_step(request, stages[1], replies[1], stages[2]));
    assert(sync_step(request, stages[2], replies[2], stages[3]));
    assert(sync_step(request, stages[3], replies[3], stages[4]));
}

/// A sync that serves the snapshot it found leaves the index as it was. It
/// does so in three cases only: the cache was current; the live page could not
/// be fetched; or the live page is the one that this build has indexed, and
/// then the check is recorded. The first two need that the sync was not forced.
pub proof fn law_kept_snapshot<E>(
    request: SyncRequest,
    stages: Seq<SyncStage<E>>,
    replies: Seq<Reply<E>>,
    snapshot_id: i64,
)
    requires
        sync_run(request, stages, replies),
        stages.last() == SyncStage::<E>::Finished(Ok((snapshot_id, false))),
    ensures
        4 <= replies.len() <= 6,
        replies[0] is Id,
        replies[1] == Reply::<E>::Found(Some(snapshot_id)),
        replies[2] is UpdateCheck,
        replies[3] is Clock,
        forall|i: int|
            0 <= i < stages.len() ==> ((#[trigger] stages[i]).pending(request) matches Some(ask)
                ==> !changes_index(ask)),
        replies.len() == 4 ==> cache_serves(
            request.force,
            Some(snapshot_id),
            replies[2]->UpdateCheck_0,
            replies[3]->Clock_0@,
        ),
        replies.len() == 5 ==> !request.force && replies[4] is Failed,
        replies.len() == 6 ==> {
            &&& replies[4] matches Reply::Html(html)
            &&& unchanged(html@, Some(snapshot_id), replies[2]->UpdateCheck_0)
            &&& exists|row: CheckRow| #[trigger]
                records(
                    row,
                    replies[0]->Id_0,
                    replies[3]->Clock_0,
                    replies[2]->UpdateCheck_0->0.last_indexed,
                    Some(content_hash(html@)),
                ) && stages[5].pending(request) == Some(row.ask())
        },
{
    assert forall|i: int| 0 <= i < stages.len() implies ((#[trigger] stages[i]).pending(
        request,
    ) matches Some(ask) ==> !changes_index(ask)) by {
        lemma_stage_by_number(request, stages, replies, i);
        lemma_kept_steps(request, stages, replies, snapshot_id);
    }
    lemma_kept_steps(request, stages, replies, snapshot_id);
}

/// The answers of a run that keeps its snapshot.
proof fn lemma_kept_steps<E>(
    request: SyncRequest,
    stages: Seq<SyncStage<E>>,
    replies: Seq<Reply<E>>,
    snapshot_id: i64,
)
    requires
        sync_run(request, stages, replies),
        stages.last() == SyncStage::<E>::Finished(Ok((snapshot_id, false))),
    ensures
        4 <= replies.len() <= 6,
        replies[0] is Id,
        replies[1] == Reply::<E>::Found(Some(snapshot_id)),
        replies[2] is UpdateCheck,
        replies[3] is Clock,
        replies.len() == 4 ==> cache_serves(
            request.force,
            Some(snapshot_id),
            replies[2]->UpdateCheck_0,
            replies[3]->Clock_0@,
        ),
        replies.len() == 5 ==> !request.force && replies[4] is Failed,
        replies.len() == 6 ==> {
            &&& replies[4] matches Reply::Html(html)
            &&& index_start(
                replies[0]->Id_0,
                html,
                Some(snapshot_id),
                replies[2]->UpdateCheck_0,
                replies[3]->Clock_0,
                stages[5]->Index_0,
            )
            &&& stages[5]->Index_0 is Unchanged
            &&& stages[5] is Index
        },
{
    let last = stages.len() - 1;
    lemma_stage_by_number(request, stages, replies, last);
    lemma_stage_by_number(request, stages, replies, 0);
    assert(last > 0);
    assert(sync_step(request, stages[last - 1], replies[last - 1], stages[last]));
    lemma_stage_by_number(request, stages, replies, last - 1);
    assert(sync_step(request, stages[0], replies[0], stages[1]));
    if last >= 2 {
        lemma_stage_by_number(request, stages, replies, 1);
        assert(sync_step(request, stages[1], replies[1], stages[2]));
    }
    if last >= 3 {
        lemma_stage_by_number(request, stages, replies, 2);
        assert(sync_step(request, stages[2], replies[2], stages[3]));
    }
    if last >= 4 {
        lemma_stage_by_number(request, stages, replies, 3);
        assert(sync_step(request, stages[3], replies[3], stages[4]));
    }
    if last >= 5 {
        lemma_stage_by_number(request, stages, replies, 4);
        assert(sync_step(request, stages[4], replies[4], stages[5]));
    }
}

/// A sync that ends with a new snapshot has fetched and parsed the live page,
/// then deleted what was stored, and then inserted, under the hash of the page
/// and the time of the sync, the snapshot and all that was parsed. It has
/// recorded the check last, with that hash and the index version of this build.
pub proof fn law_new_snapshot<E>(
    request: SyncRequest,
    stages: Seq<SyncStage<E>>,
    replies: Seq<Reply<E>>,
    snapshot_id: i64,
)
    requires
        sync_run(request, stages, replies),
        stages.last() == SyncStage::<E>::Finished(Ok((snapshot_id, true))),
    ensures
        replies.len() == 13,
        ({
            let now = replies[3]->Clock_0;
            let html = replies[4]->Html_0;
            let parsed = replies[5]->Parsed_0;
            let source = request.source;
            &&& replies[0] is Id && replies[3] is Clock && replies[4] is Html && replies[5] is Parsed
            &&& replies[7] is Id && replies[8] == Reply::<E>::Id(snapshot_id)
            &&& stages[4].pending(request) == Some(Ask::FetchLive { base_url: source.base_url@ })
            &&& stages[5].pending(request) == Some(
                Ask::ParseSpec {
                    html: html@,
                    spec_name: source.spec_name@,
                    base_url: source.base_url@,
                },
            )
            &&& stages[6].pending(request) == Some(
                Ask::DeleteSpecData { spec_id: replies[0]->Id_0 },
            )
            &&& stages[7].pending(request) == Some(source.ask())
            &&& stages[8].pending(request) == Some(
                Ask::InsertSnapshot {
                    spec_id: replies[7]->Id_0,
                    sha: "hash:"@ + content_hash(html@),
                    commit_date: rfc3339_text(now@),
                },
            )
            &&& stages[9].pending(request) == Some(
                Ask::InsertSections { snapshot_id, sections: parsed.sections@ },
            )
            &&& stages[10].pending(request) == Some(
                Ask::InsertReferences { snapshot_id, references: parsed.references@ },
            )
            &&& stages[11].pending(request) == Some(
                Ask::InsertIdlDefinitions { snapshot_id, idl_definitions: parsed.idl_definitions@ },
            )
            &&& stages[12].pending(request) == Some(
                Ask::RecordUpdateCheck {
                    spec_id: replies[7]->Id_0,
                    checked: rfc3339_text(now@),
                    indexed: Some(rfc3339_text(now@)),
                    content_hash: Some(content_hash(html@)),
                    index_version: Some(INDEX_VERSION@),
                },
            )
        }),
{
    let last = stages.len() - 1;
    lemma_stage_by_number(request, stages, replies, last);
    lemma_stage_by_number(request, stages, replies, 0);
    assert(last > 0);
    lemma_stage_by_number(request, stages, replies, last - 1);
    assert(sync_step(request, stages[last - 1], replies[last - 1], stages[last]));
    assert(last == 13);
    assert forall|i: int| 0 <= i < 13 implies sync_place(#[trigger] stages[i]) == i && sync_step(
        request,
        stages[i],
        replies[i],
        stages[i + 1],
    ) && answers(stages[i].pending(request)->0, replies[i]) by {
        lemma_stage_by_number(request, stages, replies, i);
        let answer = replies[i];
    }
    assert(sync_place(stages[0]) == 0);
    assert(sync_place(stages[1]) == 1);
    assert(sync_place(stages[2]) == 2);
    assert(sync_place(stages[3]) == 3);
    assert(sync_place(stages[4]) == 4);
    assert(sync_place(stages[5]) == 5);
    assert(sync_place(stages[6]) == 6);
    assert(sync_place(stages[7]) == 7);
    assert(sync_place(stages[8]) == 8);
    assert(sync_place(stages[9]) == 9);
    assert(sync_place(stages[10]) == 10);
    assert(sync_place(stages[11]) == 11);
    assert(sync_place(stages[12]) == 12);
}

/// A sync fails with the failure of its last command and with no other. Every
/// failed command ends it, but for a failed fetch of the live page where a
/// cached snapshot may be served.
pub proof fn law_failures_surface<E>(
    request: SyncRequest,
    stage: SyncStage<E>,
    reply: Reply<E>,
    next: SyncStage<E>,
)
    requires
        sync_step(request, stage, reply, next),
        !(stage matches SyncStage::Index(at) && at is Finished),
    ensures
        next matches SyncStage::Finished(Err(e)) ==> reply == Reply::Failed(e),
        reply matches Reply::Failed(e) ==> match stage {
            SyncStage::Fetch { previous: Some(snapshot_id), .. } if !request.force => next
                == SyncStage::<E>::Finished(Ok((snapshot_id, false))),
            _ => next == SyncStage::<E>::Finished(Err(e)),
        },
{
}

/// A forced sync always fetches the live page, and never serves a snapshot
/// where that fails.
pub proof fn law_forced_sync_fetches<E>(
    request: SyncRequest,
    stages: Seq<SyncStage<E>>,
    replies: Seq<Reply<E>>,
)
    requires
        sync_run(request, stages, replies),
        request.force,
        stages.last() matches SyncStage::Finished(Ok(_)),
    ensures
        replies.len() > 4,
        stages[4].pending(request) == Some(Ask::FetchLive { base_url: request.source.base_url@ }),
        replies[4] is Html,
{
    let served = stages.last()->Finished_0->Ok_0;
    if served.1 {
        law_new_snapshot(request, stages, replies, served.0);
    } else {
        lemma_kept_steps(request, stages, replies, served.0);
    }
    lemma_stage_by_number(request, stages, replies, 4);
}

/// Where the index version of the last check is not that of this build, a
/// cached snapshot is neither served unchecked nor kept for an unchanged page.
pub proof fn law_new_version_reindexes<E>(
    force: bool,
    previous: Option<i64>,
    state: UpdateCheckState,
    now: Instant,
    html: Seq<char>,
)
    requires
        !is_current_version(state.index_version),
    ensures
        !cache_serves(force, previous, Some(state), now),
        !unchanged(html, previous, Some(state)),
{
}

/// A page is recognised by what its own indexing recorded: with that check
/// and its snapshot stored, the same page is not parsed again.
pub proof fn law_indexed_page_is_recognised(
    row: CheckRow,
    spec_id: i64,
    now: Timestamp,
    last_indexed: Option<Timestamp>,
    html: Seq<char>,
    snapshot_id: i64,
    state: UpdateCheckState,
)
    requires
        records(row, spec_id, now, last_indexed, Some(content_hash(html))),
        optional_string(state.content_hash) == optional_string(row.content_hash),
        optional_string(state.index_version) == optional_string(row.index_version),
    ensures
        unchanged(html, Some(snapshot_id), Some(state)),
{
}

/// What a sync recorded keeps its snapshot served from the cache while the
/// check is fresh: with the row read back, a sync that is not forced needs no
/// fetch.
pub proof fn law_recorded_check_serves_cache(
    row: CheckRow,
    spec_id: i64,
    now: Timestamp,
    last_indexed: Option<Timestamp>,
    hash: Option<Seq<char>>,
    snapshot_id: i64,
    state: UpdateCheckState,
    later: Instant,
)
    requires
        records(row, spec_id, now, last_indexed, hash),
        in_four_digit_year(now@.seconds),
        instant_of(row.checked@) == Some(state.last_checked@),
        optional_string(state.index_version) == optional_string(row.index_version),
        fresh(now@, later),
    ensures
        cache_serves(false, Some(snapshot_id), Some(state), later),
{
}

} // verus!
