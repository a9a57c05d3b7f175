//! Which command of an indexing of a pull request follows on which answers.

use crate::encode::decimal;
use crate::error::{Failure, FetchError};
use crate::model::{ParsedSpec, INDEX_VERSION};
use crate::pr::{PrProvider, ResolvedPr};
use crate::preview::{pr_step, PrRequest, PrStage, PrWork};
use crate::preview_laws::{lemma_spec_stays, pr_run};
use crate::protocol::{answers, Ask, Reply};
use crate::time::{elapsed_nanos, rfc3339, rfc3339_instant, Instant};
use vstd::prelude::*;

verus! {

/// An index version was read and is that of this build, character for
/// character.
pub open spec fn reads_this_build<E>(reply: Reply<E>) -> bool {
    reply matches Reply::Version(Some(version)) && version@ == INDEX_VERSION@
}

/// Sections were counted, and there are some.
pub open spec fn counts_some<E>(reply: Reply<E>) -> bool {
    reply matches Reply::Count(count) && count >= 1
}

/// The pull request is resolved by its provider, or refused for a provider
/// other than `whatwg`.
pub open spec fn goes_to_provider<E>(request: PrRequest, stage: PrStage<E>) -> bool {
    if request.source.provider@ == "whatwg"@ {
        stage.pending(request) == Some(
            Ask::Resolve {
                resolver: PrProvider::Whatwg,
                spec_name: request.source.spec_name@,
                base_url: request.source.base_url@,
                pr_number: request.pr_number,
            },
        )
    } else {
        &&& stage matches PrStage::Finished(Err(Failure::Detected(e)))
        &&& e matches FetchError::UnsupportedProvider { provider }
        &&& provider@ == request.source.provider@
    }
}

proof fn lemma_pr_step<E>(
    request: PrRequest,
    stages: Seq<PrStage<E>>,
    replies: Seq<Reply<E>>,
    n: int,
)
    requires
        pr_run(request, stages, replies),
        0 <= n < replies.len(),
    ensures
        stages[n].pending(request) is Some,
        answers(stages[n].pending(request)->0, replies[n]),
        pr_step(request, stages[n], replies[n], stages[n + 1]),
{
    let answer = replies[n];
}

/// A run stores its specification first. Forced, it then goes to the provider;
/// otherwise it looks up the snapshot of the pull request, by the name of the
/// specification and the number.
pub proof fn law_preview_begins<E>(
    request: PrRequest,
    stages: Seq<PrStage<E>>,
    replies: Seq<Reply<E>>,
)
    requires
        pr_run(request, stages, replies),
    ensures
        stages[0].pending(request) == Some(
            (Ask::InsertOrGetSpec {
                name: request.source.spec_name@,
                base_url: request.source.base_url@,
                provider: request.source.provider@,
            }),
        ),
        replies.len() > 0 && replies[0] is Id && request.force ==> goes_to_provider(
            request,
            stages[1],
        ),
        replies.len() > 0 && replies[0] is Id && !request.force ==> stages[1].pending(request)
            == Some(
            (Ask::GetPrSnapshot {
                spec_name: request.source.spec_name@,
                pr_number: request.pr_number,
            }),
        ),
{
    if replies.len() > 0 {
        lemma_pr_step(request, stages, replies, 0);
    }
}

/// On the fast path the snapshot that was found is asked for its index version,
/// its sections and the time of its indexing; then come the clock and the
/// lookup of the merge base it was stored with. Each is asked for only where
/// the answers before it were good: this build, some sections, a time, less
/// than a day ago. With all of them good the run ends with both snapshots;
/// the first that is not good leads to the provider.
pub proof fn law_fast_path<E>(
    request: PrRequest,
    stages: Seq<PrStage<E>>,
    replies: Seq<Reply<E>>,
    id: i64,
    base_sha: String,
    at: Instant,
)
    requires
        pr_run(request, stages, replies),
        !request.force,
        replies.len() >= 2,
        replies[0] is Id,
    ensures
        replies[1] == Reply::<E>::PrSnapshot(None) ==> goes_to_provider(request, stages[2]),
        replies[1] == Reply::<E>::PrSnapshot(Some((id, base_sha))) ==> ({
            let version = replies.len() >= 3 && reads_this_build(replies[2]);
            let count = version && replies.len() >= 4 && counts_some(replies[3]);
            let text = count && replies.len() >= 5 && (replies[4] matches Reply::Text(t)
                && rfc3339_instant(t@) == Some((at.seconds as i64, at.nanos as u32)) && i64::MIN
                <= at.seconds <= i64::MAX && 0 <= at.nanos <= u32::MAX);
            let young = text && replies.len() >= 6 && (replies[5] matches Reply::Clock(now)
                && elapsed_nanos(at, now@) < 86_400_000_000_000);
            &&& stages[2].pending(request) == Some((Ask::ReadIndexVersion { snapshot_id: id }))
            &&& version ==> stages[3].pending(request) == Some(
                (Ask::CountSections { snapshot_id: id }),
            )
            &&& replies.len() >= 3 && !version ==> goes_to_provider(request, stages[3])
            &&& count ==> stages[4].pending(request) == Some(
                (Ask::ReadIndexedAt { snapshot_id: id }),
            )
            &&& version && replies.len() >= 4 && !count ==> goes_to_provider(request, stages[4])
            &&& text ==> stages[5].pending(request) == Some(Ask::ReadClock)
            &&& count && replies.len() >= 5 && (replies[4] matches Reply::Text(t)
                && rfc3339_instant(t@) is None) ==> goes_to_provider(request, stages[5])
            &&& young ==> stages[6].pending(request) == Some(
                (Ask::GetCommitSnapshot { spec_id: replies[0]->Id_0, sha: base_sha@ }),
            )
            &&& text && replies.len() >= 6 && !young ==> goes_to_provider(request, stages[6])
            &&& young && replies.len() >= 7 && replies[6] == Reply::<E>::Found(None)
                ==> goes_to_provider(request, stages[7])
            &&& young && replies.len() >= 7 ==> (replies[6] matches Reply::Found(Some(base_id))
                ==> stages[7] == PrStage::<E>::Finished(Ok((id, base_id))))
        }),
{
    lemma_pr_step(request, stages, replies, 0);
    lemma_pr_step(request, stages, replies, 1);
    if replies.len() >= 3 {
        lemma_pr_step(request, stages, replies, 2);
    }
    if replies.len() >= 4 {
        lemma_pr_step(request, stages, replies, 3);
    }
    if replies.len() >= 5 {
        lemma_pr_step(request, stages, replies, 4);
    }
    if replies.len() >= 6 {
        lemma_pr_step(request, stages, replies, 5);
    }
    if replies.len() >= 7 {
        lemma_pr_step(request, stages, replies, 6);
    }
}

/// What is stored of the pull request is deleted, under its specification and
/// its number; with that done, the merge base that it was resolved to is looked
/// up.
pub open spec fn drops<E>(request: PrRequest, work: PrWork, stage: PrStage<E>) -> bool {
    &&& stage == (PrStage::<E>::DropPr { work })
    &&& stage.pending(request) == Some(
        Ask::DeletePrData { spec_id: work.spec_id, pr_number: request.pr_number },
    )
}

/// The merge base that the pull request was resolved to is looked up, by its SHA.
pub open spec fn looks_up_base<E>(request: PrRequest, work: PrWork, stage: PrStage<E>) -> bool {
    &&& stage == (PrStage::<E>::BaseLookup { work })
    &&& stage.pending(request) == Some(
        Ask::GetCommitSnapshot {
            spec_id: work.spec_id,
            sha: work.resolved.merge_base_sha@,
        },
    )
}

/// Once the pull request has been resolved, its snapshot is looked up. With none
/// found the merge base is next. One that was found is asked for its key, its
/// index version, its sections and the merge base it was stored with, each only
/// where the answers before it were good: a key that ends with the head, this
/// build, some sections. With all of them good the run ends with both snapshots;
/// at the first that is not, what is stored of the pull request is deleted.
pub proof fn law_after_resolution<E>(
    request: PrRequest,
    stages: Seq<PrStage<E>>,
    replies: Seq<Reply<E>>,
    n: int,
    resolved: ResolvedPr,
    id: i64,
    base_sha: String,
)
    requires
        pr_run(request, stages, replies),
        0 <= n < replies.len(),
        stages[n].pending(request)->0 is Resolve,
        replies[n] == Reply::<E>::Resolved(resolved),
    ensures
        replies[0] is Id,
        stages[n + 1].pending(request) == Some(
            (Ask::GetPrSnapshot {
                spec_name: request.source.spec_name@,
                pr_number: request.pr_number,
            }),
        ),
        ({
            let work = PrWork { spec_id: replies[0]->Id_0, resolved };
            let found = replies.len() >= n + 2 && replies[n + 1] == Reply::<E>::PrSnapshot(
                Some((id, base_sha)),
            );
            let key = found && replies.len() >= n + 3 && (replies[n + 2] matches Reply::Text(text)
                && resolved.head_sha@.is_suffix_of(text@));
            let version = key && replies.len() >= n + 4 && reads_this_build(replies[n + 3]);
            let count = version && replies.len() >= n + 5 && counts_some(replies[n + 4]);
            &&& replies.len() >= n + 2 && replies[n + 1] == Reply::<E>::PrSnapshot(None)
                ==> looks_up_base(request, work, stages[n + 2])
            &&& found ==> stages[n + 2].pending(request) == Some((Ask::ReadSha { snapshot_id: id }))
            &&& key ==> stages[n + 3].pending(request) == Some(
                (Ask::ReadIndexVersion { snapshot_id: id }),
            )
            &&& found && replies.len() >= n + 3 && replies[n + 2] is Text && !key ==> drops(
                request,
                work,
                stages[n + 3],
            )
            &&& version ==> stages[n + 4].pending(request) == Some(
                (Ask::CountSections { snapshot_id: id }),
            )
            &&& key && replies.len() >= n + 4 && !version ==> drops(request, work, stages[n + 4])
            &&& count ==> stages[n + 5].pending(request) == Some(
                (Ask::GetCommitSnapshot { spec_id: work.spec_id, sha: base_sha@ }),
            )
            &&& version && replies.len() >= n + 5 && !count ==> drops(request, work, stages[n + 5])
            &&& count && replies.len() >= n + 6 && replies[n + 5] == Reply::<E>::Found(None)
                ==> drops(request, work, stages[n + 6])
            &&& count && replies.len() >= n + 6 ==> (replies[n + 5] matches Reply::Found(
                Some(base_id),
            ) ==> stages[n + 6] == PrStage::<E>::Finished(Ok((id, base_id))))
        }),
{
    lemma_spec_stays(request, stages, replies, n);
    lemma_pr_step(request, stages, replies, n);
    assert(stages[n] is Resolve);
    if replies.len() >= n + 2 {
        lemma_pr_step(request, stages, replies, n + 1);
    }
    if replies.len() >= n + 3 {
        lemma_pr_step(request, stages, replies, n + 2);
    }
    if replies.len() >= n + 4 {
        lemma_pr_step(request, stages, replies, n + 3);
    }
    if replies.len() >= n + 5 {
        lemma_pr_step(request, stages, replies, n + 4);
    }
    if replies.len() >= n + 6 {
        lemma_pr_step(request, stages, replies, n + 5);
    }
}

/// Once what was stored of the pull request has been deleted, the merge base is
/// looked up.
pub proof fn law_after_deletion<E>(
    request: PrRequest,
    stages: Seq<PrStage<E>>,
    replies: Seq<Reply<E>>,
    n: int,
    work: PrWork,
)
    requires
        pr_run(request, stages, replies),
        0 <= n < replies.len(),
        drops(request, work, stages[n]),
        replies[n] is Done,
    ensures
        looks_up_base(request, work, stages[n + 1]),
{
    lemma_pr_step(request, stages, replies, n);
}

/// The pages of the preview come next, with this merge base: the first of them
/// is fetched, or the clock is read where there is none.
pub open spec fn turns_to_pages<E>(
    request: PrRequest,
    work: PrWork,
    base_id: i64,
    stage: PrStage<E>,
) -> bool {
    if work.resolved.pages@.len() > 0 {
        &&& stage matches PrStage::PageFetch { work: w, base_id: b, done }
        &&& w == work
        &&& b == base_id
        &&& done@.len() == 0
        &&& stage.pending(request) == Some(Ask::FetchPage { url: work.resolved.pages@[0].url@ })
    } else {
        &&& stage matches PrStage::PrClock { work: w, base_id: b, .. }
        &&& w == work
        &&& b == base_id
        &&& stage.pending(request) == Some(Ask::ReadClock)
    }
}

/// A snapshot of the merge base that was found is used where this build made
/// it. Otherwise, and where none was found, the page of the merge base is
/// fetched and parsed.
pub proof fn law_base_is_used_or_fetched<E>(
    request: PrRequest,
    stages: Seq<PrStage<E>>,
    replies: Seq<Reply<E>>,
    n: int,
    work: PrWork,
    id: i64,
)
    requires
        pr_run(request, stages, replies),
        0 <= n < replies.len(),
        looks_up_base(request, work, stages[n]),
    ensures
        ({
            let page = Some((Ask::FetchPage { url: work.resolved.base_html_url@ }));
            let found = replies[n] == Reply::<E>::Found(Some(id));
            let used = found && replies.len() >= n + 2 && reads_this_build(replies[n + 1]);
            let stale = found && replies.len() >= n + 2 && !used;
            &&& replies[n] == Reply::<E>::Found(None) ==> stages[n + 1].pending(request) == page
            &&& found ==> stages[n + 1].pending(request) == Some(
                (Ask::ReadIndexVersion { snapshot_id: id }),
            )
            &&& used ==> turns_to_pages(request, work, id, stages[n + 2])
            &&& stale ==> stages[n + 2].pending(request) == page
            &&& stale && replies.len() >= n + 3 ==> (replies[n + 2] matches Reply::Html(html)
                ==> stages[n + 3].pending(request) == Some(
                (Ask::ParseSpec {
                    html: html@,
                    spec_name: request.source.spec_name@,
                    base_url: request.source.base_url@,
                }),
            ))
            &&& stale && replies.len() >= n + 4 && replies[n + 3] is Parsed ==> stages[n
                + 4].pending(request) == Some((Ask::DeleteCommitSnapshot { snapshot_id: id }))
            &&& replies[n] == Reply::<E>::Found(None) && replies.len() >= n + 2 ==> (replies[n
                + 1] matches Reply::Html(html) ==> stages[n + 2].pending(request) == Some(
                (Ask::ParseSpec {
                    html: html@,
                    spec_name: request.source.spec_name@,
                    base_url: request.source.base_url@,
                }),
            ))
            &&& replies[n] == Reply::<E>::Found(None) && replies.len() >= n + 3 && replies[n
                + 2] is Parsed ==> stages[n + 3].pending(request) == Some(Ask::ReadClock)
            &&& replies[n] == Reply::<E>::Found(None) && replies.len() >= n + 4 && replies[n
                + 2] is Parsed && replies[n + 3] is Clock ==> stages[n + 4].pending(
                request,
            ) is Some && stages[n + 4].pending(request)->0 is InsertSnapshot
            &&& stale && replies.len() >= n + 5 && replies[n + 3] is Parsed && replies[n
                + 4] is Done ==> stages[n + 5].pending(request) == Some(Ask::ReadClock)
            &&& stale && replies.len() >= n + 6 && replies[n + 3] is Parsed && replies[n
                + 4] is Done && replies[n + 5] is Clock ==> stages[n + 6].pending(request) is Some
                && stages[n + 6].pending(request)->0 is InsertSnapshot
        }),
{
    lemma_pr_step(request, stages, replies, n);
    if replies.len() >= n + 2 {
        lemma_pr_step(request, stages, replies, n + 1);
    }
    if replies.len() >= n + 3 {
        lemma_pr_step(request, stages, replies, n + 2);
    }
    if replies.len() >= n + 4 {
        lemma_pr_step(request, stages, replies, n + 3);
    }
    if replies.len() >= n + 5 {
        lemma_pr_step(request, stages, replies, n + 4);
    }
    if replies.len() >= n + 6 {
        lemma_pr_step(request, stages, replies, n + 5);
    }
}

/// Where a snapshot of the merge base is inserted, it is the one that the pull
/// request was resolved to, at the time that was read before. Its sections,
/// references and interface definitions follow, each under the id that the
/// insertion gave, and they are what was parsed from the page of the merge base,
/// which was fetched at answer `f`. Then come the pages of the pull request,
/// with that id for the merge base.
pub proof fn law_base_is_stored_under_its_id<E>(
    request: PrRequest,
    stages: Seq<PrStage<E>>,
    replies: Seq<Reply<E>>,
    n: int,
    work: PrWork,
    base_id: i64,
) -> (f: int)
    requires
        pr_run(request, stages, replies),
        0 <= n < replies.len(),
        stages[n].pending(request)->0 is InsertSnapshot,
        stages[n] matches PrStage::BaseInsert { work: w, .. } ==> w == work,
        replies[n] == Reply::<E>::Id(base_id),
    ensures
        0 <= f < n - 1,
        stages[f].pending(request) == Some((Ask::FetchPage { url: work.resolved.base_html_url@ })),
        replies[f] is Html,
        stages[f + 1].pending(request) == Some(
            (Ask::ParseSpec {
                html: replies[f]->Html_0@,
                spec_name: request.source.spec_name@,
                base_url: request.source.base_url@,
            }),
        ),
        replies[f + 1] is Parsed,
        stages[n - 1].pending(request) == Some(Ask::ReadClock),
        replies[n - 1] is Clock,
        ({
            let now = replies[n - 1]->Clock_0@;
            let parsed = replies[f + 1]->Parsed_0;
            let sections = replies.len() >= n + 2 && replies[n + 1] is Done;
            let references = sections && replies.len() >= n + 3 && replies[n + 2] is Done;
            let all = references && replies.len() >= n + 4 && replies[n + 3] is Done;
            &&& stages[n].pending(request) == Some(
                (Ask::InsertSnapshot {
                    spec_id: work.spec_id,
                    sha: work.resolved.merge_base_sha@,
                    commit_date: rfc3339(now.seconds as i64, now.nanos as u32),
                }),
            )
            &&& stages[n + 1].pending(request) == Some(
                (Ask::InsertSections { snapshot_id: base_id, sections: parsed.sections@ }),
            )
            &&& sections ==> stages[n + 2].pending(request) == Some(
                (Ask::InsertReferences { snapshot_id: base_id, references: parsed.references@ }),
            )
            &&& references ==> stages[n + 3].pending(request) == Some(
                (Ask::InsertIdlDefinitions {
                    snapshot_id: base_id,
                    idl_definitions: parsed.idl_definitions@,
                }),
            )
            &&& all ==> turns_to_pages(request, work, base_id, stages[n + 4])
        }),
{
    assert(stages[n] is BaseInsert);
    lemma_pr_step(request, stages, replies, n - 1);
    assert(stages[n - 1] is BaseClock);
    lemma_pr_step(request, stages, replies, n - 2);
    let parse = if stages[n - 2] is BaseDrop {
        n - 3
    } else {
        n - 2
    };
    assert(n > 2);
    if stages[n - 2] is BaseDrop {
        lemma_pr_step(request, stages, replies, n - 3);
    }
    assert(stages[parse] is BaseParse);
    lemma_pr_step(request, stages, replies, parse);
    assert(parse > 0);
    lemma_pr_step(request, stages, replies, parse - 1);
    assert(stages[parse - 1] is BaseFetch);
    lemma_pr_step(request, stages, replies, n);
    if replies.len() >= n + 2 {
        lemma_pr_step(request, stages, replies, n + 1);
    }
    if replies.len() >= n + 3 {
        lemma_pr_step(request, stages, replies, n + 2);
    }
    if replies.len() >= n + 4 {
        lemma_pr_step(request, stages, replies, n + 3);
    }
    parse - 1
}

/// The pages of a preview are fetched and parsed one after the other, none left
/// out and none twice: with `n` the answer at which they begin, page `k` is
/// fetched at answer `n + 2 * k`, from its own URL, and parsed at the next. After
/// the last of them the clock is read.
pub proof fn law_pages_come_in_turn<E>(
    request: PrRequest,
    stages: Seq<PrStage<E>>,
    replies: Seq<Reply<E>>,
    n: int,
    work: PrWork,
    base_id: i64,
    k: int,
)
    requires
        pr_run(request, stages, replies),
        0 <= n,
        turns_to_pages(request, work, base_id, stages[n]),
        0 <= k <= work.resolved.pages@.len(),
        n + 2 * k < stages.len(),
        forall|i: int| n <= i < n + 2 * k ==> !((#[trigger] replies[i]) is Failed),
    ensures
        k < work.resolved.pages@.len() ==> stages[n + 2 * k].pending(request) == Some(
            (Ask::FetchPage { url: work.resolved.pages@[k].url@ }),
        ),
        k < work.resolved.pages@.len() && n + 2 * k < replies.len() ==> (replies[n + 2
            * k] matches Reply::Html(html) ==> stages[n + 2 * k + 1].pending(request) == Some(
            (Ask::ParseSpec {
                html: html@,
                spec_name: request.source.spec_name@,
                base_url: request.source.base_url@,
            }),
        )),
        k == work.resolved.pages@.len() ==> stages[n + 2 * k].pending(request) == Some(
            Ask::ReadClock,
        ),
        k < work.resolved.pages@.len() ==> (stages[n + 2 * k] matches PrStage::PageFetch {
            work: w,
            base_id: b,
            done,
        } && w == work && b == base_id && done@.len() == k),
        k == work.resolved.pages@.len() ==> (stages[n + 2 * k] matches PrStage::PrClock {
            work: w,
            base_id: b,
            ..
        } && w == work && b == base_id),
    decreases k,
{
    if k > 0 {
        law_pages_come_in_turn(request, stages, replies, n, work, base_id, k - 1);
        let fetch = n + 2 * (k - 1);
        lemma_pr_step(request, stages, replies, fetch);
        assert(!(replies[fetch] is Failed));
        assert(stages[fetch + 1] is PageParse);
        lemma_pr_step(request, stages, replies, fetch + 1);
        assert(!(replies[fetch + 1] is Failed));
    }
    if k < work.resolved.pages@.len() && n + 2 * k < replies.len() {
        lemma_pr_step(request, stages, replies, n + 2 * k);
    }
}

/// Every command but the two that decide whether a snapshot is valid ends the
/// run where it fails, with its failure.
pub proof fn law_failed_command_ends_preview<E>(
    request: PrRequest,
    stages: Seq<PrStage<E>>,
    replies: Seq<Reply<E>>,
    n: int,
    failure: E,
)
    requires
        pr_run(request, stages, replies),
        0 <= n < replies.len(),
        replies[n] == Reply::<E>::Failed(failure),
        !(stages[n].pending(request)->0 is ReadIndexVersion),
        !(stages[n].pending(request)->0 is CountSections),
    ensures
        replies.len() == n + 1,
        stages[n + 1] == PrStage::<E>::Finished(Err(Failure::Outside(failure))),
{
    lemma_pr_step(request, stages, replies, n);
    if replies.len() > n + 1 {
        lemma_pr_step(request, stages, replies, n + 1);
    }
}

/// Where the snapshot of the pull request is inserted, its key begins with `pr:`
/// and the number and ends with the head, its time is the one that was read
/// before, and the paths are those of the pages, in their order. Its sections,
/// references and interface definitions follow, each under the id that the
/// insertion gave, and the run ends with that id and the merge base.
pub proof fn law_preview_is_stored_under_its_id<E>(
    request: PrRequest,
    stages: Seq<PrStage<E>>,
    replies: Seq<Reply<E>>,
    n: int,
    work: PrWork,
    base_id: i64,
    merged: ParsedSpec,
    pr_id: i64,
)
    requires
        pr_run(request, stages, replies),
        0 <= n < replies.len(),
        stages[n] == (PrStage::<E>::PrClock { work, base_id, merged }),
        replies[n] is Clock,
    ensures
        ({
            let now = replies[n]->Clock_0@;
            let paths = work.resolved.pages@;
            let insert = stages[n + 1].pending(request)->0;
            let id = replies.len() >= n + 2 && replies[n + 1] == Reply::<E>::Id(pr_id);
            let sections = id && replies.len() >= n + 3 && replies[n + 2] is Done;
            let references = sections && replies.len() >= n + 4 && replies[n + 3] is Done;
            let all = references && replies.len() >= n + 5 && replies[n + 4] is Done;
            &&& stages[n + 1].pending(request) is Some
            &&& insert is InsertPrSnapshot
            &&& insert->InsertPrSnapshot_spec_id == work.spec_id
            &&& insert->InsertPrSnapshot_sha == "pr:"@ + decimal(
                request.pr_number as int,
            ) + ":"@ + work.resolved.head_sha@
            &&& insert->InsertPrSnapshot_commit_date == rfc3339(
                now.seconds as i64,
                now.nanos as u32,
            )
            &&& insert->InsertPrSnapshot_pr_number == request.pr_number
            &&& insert->InsertPrSnapshot_merge_base_sha == work.resolved.merge_base_sha@
            &&& insert->InsertPrSnapshot_page_paths.len() == paths.len()
            &&& forall|i: int|
                0 <= i < paths.len() ==> #[trigger] insert->InsertPrSnapshot_page_paths[i]
                    == paths[i].page_path@
            &&& id ==> stages[n + 2].pending(request) == Some(
                (Ask::InsertSections { snapshot_id: pr_id, sections: merged.sections@ }),
            )
            &&& sections ==> stages[n + 3].pending(request) == Some(
                (Ask::InsertReferences { snapshot_id: pr_id, references: merged.references@ }),
            )
            &&& references ==> stages[n + 4].pending(request) == Some(
                (Ask::InsertIdlDefinitions {
                    snapshot_id: pr_id,
                    idl_definitions: merged.idl_definitions@,
                }),
            )
            &&& all ==> stages[n + 5] == PrStage::<E>::Finished(Ok((pr_id, base_id)))
        }),
{
    lemma_pr_step(request, stages, replies, n);
    if replies.len() >= n + 2 {
        lemma_pr_step(request, stages, replies, n + 1);
    }
    if replies.len() >= n + 3 {
        lemma_pr_step(request, stages, replies, n + 2);
    }
    if replies.len() >= n + 4 {
        lemma_pr_step(request, stages, replies, n + 3);
    }
    if replies.len() >= n + 5 {
        lemma_pr_step(request, stages, replies, n + 4);
    }
}

} // verus!
