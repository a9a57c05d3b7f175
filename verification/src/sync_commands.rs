//! Which command of a sync follows on which answers.

use crate::digest::{content_hash, sha256};
use crate::encode::lower_hex;
use crate::model::{UpdateCheckState, INDEX_VERSION};
use crate::protocol::{answers, Ask, Reply};
use crate::sync::{sync_step, SyncRequest, SyncStage};
use crate::sync_laws::{lemma_stage_by_number, sync_place, sync_run};
use crate::time::{elapsed_nanos, rfc3339, Timestamp};
use vstd::prelude::*;
use vstd::utf8::*;

verus! {

/// A sync stores its specification, looks up the snapshot of that name and the
/// last check of the id that it was stored under, and reads the clock.
pub proof fn law_sync_looks_up_first<E>(
    request: SyncRequest,
    stages: Seq<SyncStage<E>>,
    replies: Seq<Reply<E>>,
    spec_id: i64,
)
    requires
        sync_run(request, stages, replies),
    ensures
        stages[0].pending(request) == Some(
            (Ask::InsertOrGetSpec {
                name: request.source.spec_name@,
                base_url: request.source.base_url@,
                provider: request.source.provider@,
            }),
        ),
        replies.len() > 0 && replies[0] == Reply::<E>::Id(spec_id) ==> stages[1].pending(request)
            == Some((Ask::GetSnapshot { spec_name: request.source.spec_name@ })),
        replies.len() > 1 && replies[0] == Reply::<E>::Id(spec_id) && replies[1] is Found
            ==> stages[2].pending(request) == Some((Ask::GetUpdateCheck { spec_id })),
        replies.len() > 2 && replies[2] is UpdateCheck ==> stages[3].pending(request) == Some(
            Ask::ReadClock,
        ),
{
    if replies.len() > 0 {
        lemma_sync_step(request, stages, replies, 0);
    }
    if replies.len() > 1 {
        lemma_sync_step(request, stages, replies, 1);
    }
    if replies.len() > 2 {
        lemma_sync_step(request, stages, replies, 2);
    }
}

proof fn lemma_sync_step<E>(
    request: SyncRequest,
    stages: Seq<SyncStage<E>>,
    replies: Seq<Reply<E>>,
    n: int,
)
    requires
        sync_run(request, stages, replies),
        0 <= n < replies.len(),
    ensures
        stages[n].pending(request) is Some,
        answers(stages[n].pending(request)->0, replies[n]),
        sync_step(request, stages[n], replies[n], stages[n + 1]),
        sync_place(stages[n]) == n,
        !(stages[n] is Finished),
{
    let answer = replies[n];
    lemma_stage_by_number(request, stages, replies, n);
}

/// The index version of a check is that of this build, character for character.
pub open spec fn made_by_this_build(state: UpdateCheckState) -> bool {
    state.index_version is Some && state.index_version->0@ == INDEX_VERSION@
}

/// Once the clock has been read, the snapshot that was found is served exactly
/// where the sync is not forced, a snapshot and a check were found, this build
/// made the index and less than a day has passed since the check. Otherwise the
/// live page is fetched.
pub proof fn law_cache_or_fetch<E>(
    request: SyncRequest,
    stages: Seq<SyncStage<E>>,
    replies: Seq<Reply<E>>,
    previous: Option<i64>,
    state: Option<UpdateCheckState>,
    now: Timestamp,
)
    requires
        sync_run(request, stages, replies),
        replies.len() >= 4,
        replies[1] == Reply::<E>::Found(previous),
        replies[2] == Reply::<E>::UpdateCheck(state),
        replies[3] == Reply::<E>::Clock(now),
    ensures
        ({
            let serves = !request.force && previous is Some && state is Some && elapsed_nanos(
                state->0.last_checked@,
                now@,
            ) < 86_400_000_000_000 && made_by_this_build(state->0);
            &&& serves ==> stages[4] == SyncStage::<E>::Finished(Ok((previous->0, false)))
            &&& !serves ==> stages[4].pending(request) == Some(
                (Ask::FetchLive { base_url: request.source.base_url@ }),
            )
        }),
{
    lemma_sync_step(request, stages, replies, 1);
    lemma_sync_step(request, stages, replies, 2);
    lemma_sync_step(request, stages, replies, 3);
}

/// Where the live page cannot be fetched, the snapshot that was found is served
/// unless the sync is forced; with none found, or forced, the sync fails with
/// that failure.
pub proof fn law_failed_fetch<E>(
    request: SyncRequest,
    stages: Seq<SyncStage<E>>,
    replies: Seq<Reply<E>>,
    previous: Option<i64>,
    failure: E,
)
    requires
        sync_run(request, stages, replies),
        replies.len() >= 5,
        replies[1] == Reply::<E>::Found(previous),
        replies[4] == Reply::<E>::Failed(failure),
    ensures
        previous is Some && !request.force ==> stages[5] == SyncStage::<E>::Finished(
            Ok((previous->0, false)),
        ),
        previous is None || request.force ==> stages[5] == SyncStage::<E>::Finished(Err(failure)),
{
    lemma_sync_step(request, stages, replies, 1);
    lemma_sync_step(request, stages, replies, 2);
    lemma_sync_step(request, stages, replies, 3);
    lemma_sync_step(request, stages, replies, 4);
}

/// A fetched page counts as unchanged exactly where a snapshot and a check were
/// found, the hash of that check is the SHA-256 digest of all the bytes of the
/// page, and this build made the index. Then only the check is recorded, at the
/// time of this sync, with the time of the last indexing, and the snapshot that
/// was found is served. Otherwise the page is parsed.
pub proof fn law_unchanged_or_parse<E>(
    request: SyncRequest,
    stages: Seq<SyncStage<E>>,
    replies: Seq<Reply<E>>,
    spec_id: i64,
    previous: Option<i64>,
    state: Option<UpdateCheckState>,
    now: Timestamp,
    html: String,
)
    requires
        sync_run(request, stages, replies),
        replies.len() >= 5,
        replies[0] == Reply::<E>::Id(spec_id),
        replies[1] == Reply::<E>::Found(previous),
        replies[2] == Reply::<E>::UpdateCheck(state),
        replies[3] == Reply::<E>::Clock(now),
        replies[4] == Reply::<E>::Html(html),
    ensures
        ({
            let hash = lower_hex(sha256(encode_utf8(html@)));
            let same = previous is Some && state is Some && state->0.content_hash is Some
                && state->0.content_hash->0@ == hash && made_by_this_build(state->0);
            &&& same ==> stages[5].pending(request) is Some && stages[5].pending(request)->0 == (
            Ask::RecordUpdateCheck {
                spec_id,
                checked: rfc3339(now@.seconds as i64, now@.nanos as u32),
                indexed: if state->0.last_indexed is Some {
                    Some(
                        rfc3339(
                            state->0.last_indexed->0@.seconds as i64,
                            state->0.last_indexed->0@.nanos as u32,
                        ),
                    )
                } else {
                    None
                },
                content_hash: Some(hash),
                index_version: Some(INDEX_VERSION@),
            })
            &&& same && replies.len() >= 6 && replies[5] is Done ==> stages[6] == SyncStage::<
                E,
            >::Finished(Ok((previous->0, false)))
            &&& !same ==> stages[5].pending(request) == Some(
                (Ask::ParseSpec {
                    html: html@,
                    spec_name: request.source.spec_name@,
                    base_url: request.source.base_url@,
                }),
            )
        }),
{
    assert(content_hash(html@) == lower_hex(sha256(encode_utf8(html@))));
    lemma_sync_step(request, stages, replies, 0);
    lemma_sync_step(request, stages, replies, 1);
    lemma_sync_step(request, stages, replies, 2);
    lemma_sync_step(request, stages, replies, 3);
    lemma_sync_step(request, stages, replies, 4);
    if replies.len() >= 6 {
        lemma_sync_step(request, stages, replies, 5);
    }
}

/// Once the page has been parsed, command follows on command: what was stored of
/// the specification is deleted, the specification is stored again, and a
/// snapshot is inserted for it under the hash of the page and the time of the
/// sync. Under the id that this gave go the sections, the references and the
/// definitions of that page. The check is recorded last, for the specification
/// as it was stored again, and the sync ends with the new snapshot.
pub proof fn law_parsed_page_is_stored<E>(
    request: SyncRequest,
    stages: Seq<SyncStage<E>>,
    replies: Seq<Reply<E>>,
    old_id: i64,
    new_id: i64,
    snapshot_id: i64,
)
    requires
        sync_run(request, stages, replies),
        replies.len() >= 6,
        replies[0] == Reply::<E>::Id(old_id),
        replies[5] is Parsed,
    ensures
        replies[3] is Clock,
        replies[4] is Html,
        ({
            let now = replies[3]->Clock_0@;
            let time = rfc3339(now.seconds as i64, now.nanos as u32);
            let hash = lower_hex(sha256(encode_utf8(replies[4]->Html_0@)));
            let parsed = replies[5]->Parsed_0;
            let stored = replies.len() >= 8 && replies[6] is Done && replies[7] == Reply::<E>::Id(
                new_id,
            );
            let inserted = stored && replies.len() >= 9 && replies[8] == Reply::<E>::Id(snapshot_id);
            &&& stages[6].pending(request) == Some((Ask::DeleteSpecData { spec_id: old_id }))
            &&& replies.len() >= 7 && replies[6] is Done ==> stages[7].pending(request) == Some(
                (Ask::InsertOrGetSpec {
                    name: request.source.spec_name@,
                    base_url: request.source.base_url@,
                    provider: request.source.provider@,
                }),
            )
            &&& stored ==> stages[8].pending(request) == Some(
                (Ask::InsertSnapshot { spec_id: new_id, sha: "hash:"@ + hash, commit_date: time }),
            )
            &&& inserted ==> stages[9].pending(request) == Some(
                (Ask::InsertSections { snapshot_id, sections: parsed.sections@ }),
            )
            &&& inserted && replies.len() >= 10 && replies[9] is Done ==> stages[10].pending(
                request,
            ) == Some((Ask::InsertReferences { snapshot_id, references: parsed.references@ }))
            &&& inserted && replies.len() >= 11 && replies[10] is Done ==> stages[11].pending(
                request,
            ) == Some(
                (Ask::InsertIdlDefinitions {
                    snapshot_id,
                    idl_definitions: parsed.idl_definitions@,
                }),
            )
            &&& inserted && replies.len() >= 12 && replies[11] is Done ==> stages[12].pending(
                request,
            ) == Some(
                (Ask::RecordUpdateCheck {
                    spec_id: new_id,
                    checked: time,
                    indexed: Some(time),
                    content_hash: Some(hash),
                    index_version: Some(INDEX_VERSION@),
                }),
            )
            &&& inserted && replies.len() >= 13 && replies[12] is Done ==> stages[13]
                == SyncStage::<E>::Finished(Ok((snapshot_id, true)))
        }),
{
    assert(content_hash(replies[4]->Html_0@) == lower_hex(
        sha256(encode_utf8(replies[4]->Html_0@)),
    ));
    lemma_sync_step(request, stages, replies, 0);
    lemma_sync_step(request, stages, replies, 1);
    lemma_sync_step(request, stages, replies, 2);
    lemma_sync_step(request, stages, replies, 3);
    lemma_sync_step(request, stages, replies, 4);
    lemma_sync_step(request, stages, replies, 5);
    if replies.len() >= 7 {
        lemma_sync_step(request, stages, replies, 6);
    }
    if replies.len() >= 8 {
        lemma_sync_step(request, stages, replies, 7);
    }
    if replies.len() >= 9 {
        lemma_sync_step(request, stages, replies, 8);
    }
    if replies.len() >= 10 {
        lemma_sync_step(request, stages, replies, 9);
    }
    if replies.len() >= 11 {
        lemma_sync_step(request, stages, replies, 10);
    }
    if replies.len() >= 12 {
        lemma_sync_step(request, stages, replies, 11);
    }
    if replies.len() >= 13 {
        lemma_sync_step(request, stages, replies, 12);
    }
}

/// Every command but the fetch of the live page ends the sync where it fails,
/// with its failure.
pub proof fn law_failed_command_ends_sync<E>(
    request: SyncRequest,
    stages: Seq<SyncStage<E>>,
    replies: Seq<Reply<E>>,
    n: int,
    failure: E,
)
    requires
        sync_run(request, stages, replies),
        0 <= n < replies.len(),
        replies[n] == Reply::<E>::Failed(failure),
        !(stages[n].pending(request)->0 is FetchLive),
    ensures
        replies.len() == n + 1,
        stages[n + 1] == SyncStage::<E>::Finished(Err(failure)),
{
    lemma_sync_step(request, stages, replies, n);
    if replies.len() > n + 1 {
        lemma_sync_step(request, stages, replies, n + 1);
    }
}

} // verus!
