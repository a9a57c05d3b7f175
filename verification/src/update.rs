//! What callers learn of a sync, and syncing many specifications in turn.

use crate::sync::{
    sync_dynamic_spec, sync_known_spec, SyncRequest, SyncStage, DYNAMIC_PROVIDER,
};
use vstd::prelude::*;

verus! {

/// What a sync ended with: the snapshot to serve and whether it is a new one.
pub type SyncResult<E> = Result<(i64, bool), E>;

/// Begins to ensure that a specification is indexed and reasonably fresh: a
/// sync that is not forced.
pub fn ensure_indexed<E>(spec_name: &str, base_url: &str, provider_name: &str) -> (begun: (
    SyncRequest,
    SyncStage<E>,
))
    ensures
        begun.0.source.spec_name@ == spec_name@,
        begun.0.source.base_url@ == base_url@,
        begun.0.source.provider@ == provider_name@,
        begun.0.force == false,
        begun.1 == SyncStage::<E>::Register,
{
    sync_known_spec(spec_name, base_url, provider_name, false)
}

/// Begins to ensure that a specification that is given by its URL is indexed: a
/// sync that is not forced.
pub fn ensure_indexed_dynamic<E>(spec_name: &str, base_url: &str) -> (begun: (
    SyncRequest,
    SyncStage<E>,
))
    ensures
        begun.0.source.spec_name@ == spec_name@,
        begun.0.source.base_url@ == base_url@,
        begun.0.source.provider@ == DYNAMIC_PROVIDER@,
        begun.0.force == false,
        begun.1 == SyncStage::<E>::Register,
{
    sync_dynamic_spec(spec_name, base_url, false)
}

/// Begins to update a specification if needed.
pub fn update_if_needed<E>(spec_name: &str, base_url: &str, provider_name: &str, force: bool) -> (begun:
    (SyncRequest, SyncStage<E>))
    ensures
        begun.0.source.spec_name@ == spec_name@,
        begun.0.source.base_url@ == base_url@,
        begun.0.source.provider@ == provider_name@,
        begun.0.force == force,
        begun.1 == SyncStage::<E>::Register,
{
    sync_known_spec(spec_name, base_url, provider_name, force)
}

/// The snapshot that a sync ended with, new or not.
pub fn served_snapshot<E>(synced: SyncResult<E>) -> (snapshot: Result<i64, E>)
    ensures
        snapshot == match synced {
            Ok((snapshot_id, _)) => Ok(snapshot_id),
            Err(e) => Err(e),
        },
        forall|id: i64, updated: bool|
            synced == Ok::<(i64, bool), E>((id, updated)) ==> snapshot == Ok::<i64, E>(id),
        forall|e: E| synced == Err::<(i64, bool), E>(e) ==> snapshot == Err::<i64, E>(e),
{
    match synced {
        Ok((snapshot_id, _)) => Ok(snapshot_id),
        Err(e) => Err(e),
    }
}

/// The snapshot that a sync ended with where it is a new one.
pub open spec fn new_snapshot<E>(synced: SyncResult<E>) -> Result<Option<i64>, E> {
    match synced {
        Ok((snapshot_id, true)) => Ok(Some(snapshot_id)),
        Ok((_, false)) => Ok(None),
        Err(e) => Err(e),
    }
}

/// The snapshot that a sync ended with, only where the content changed and was
/// indexed again.
pub fn updated_snapshot<E>(synced: SyncResult<E>) -> (snapshot: Result<Option<i64>, E>)
    ensures
        snapshot == new_snapshot(synced),
        forall|id: i64|
            synced == Ok::<(i64, bool), E>((id, true)) ==> snapshot == Ok::<Option<i64>, E>(Some(id)),
        forall|id: i64|
            synced == Ok::<(i64, bool), E>((id, false)) ==> snapshot == Ok::<Option<i64>, E>(None),
        forall|e: E| synced == Err::<(i64, bool), E>(e) ==> snapshot == Err::<Option<i64>, E>(e),
{
    match synced {
        Ok((snapshot_id, updated)) => if updated {
            Ok(Some(snapshot_id))
        } else {
            Ok(None)
        },
        Err(e) => Err(e),
    }
}

/// What is reported where the first of `specs` have been synced, with these
/// outcomes: the name of each, with its new snapshot or its failure.
pub open spec fn report<E>(
    specs: Seq<(String, String, String)>,
    synced: Seq<SyncResult<E>>,
) -> Seq<(String, Result<Option<i64>, E>)> {
    Seq::new(synced.len(), |i: int| (specs[i].0, new_snapshot(synced[i])))
}

/// How an update of many specifications stands.
#[derive(Debug)]
pub struct UpdateAll<E> {
    /// The name, the base URL and the provider of each.
    pub specs: Vec<(String, String, String)>,
    /// Whether each sync is forced.
    pub force: bool,
    /// What is reported of those that have been synced, which are the first.
    pub results: Vec<(String, Result<Option<i64>, E>)>,
}

/// Begins to update many specifications, each given by its name, its base URL
/// and its provider.
pub fn update_all_specs<E>(specs: Vec<(String, String, String)>, force: bool) -> (update: UpdateAll<
    E,
>)
    ensures
        update.specs == specs,
        update.force == force,
        update.results@ == report(specs@, Seq::<SyncResult<E>>::empty()),
        update.well_formed(),
{
    let update = UpdateAll { specs, force, results: Vec::new() };
    assert(update.results@ =~= report(specs@, Seq::<SyncResult<E>>::empty()));
    update
}

impl<E> UpdateAll<E> {
    /// No more is reported than was to be updated.
    pub open spec fn well_formed(self) -> bool {
        self.results@.len() <= self.specs@.len()
    }

    /// Begins the next sync, or says that all have been made.
    pub fn next_sync(&self) -> (begun: Option<(SyncRequest, SyncStage<E>)>)
        requires
            self.well_formed(),
        ensures
            match begun {
                Some((request, stage)) => {
                    let next = self.results@.len() as int;
                    &&& next < self.specs@.len()
                    &&& request.source.spec_name@ == self.specs@[next].0@
                    &&& request.source.base_url@ == self.specs@[next].1@
                    &&& request.source.provider@ == self.specs@[next].2@
                    &&& request.force == self.force
                    &&& stage == SyncStage::<E>::Register
                },
                None => self.results@.len() == self.specs@.len(),
            },
    {
        let next: usize = self.results.len();
        if next >= self.specs.len() {
            return None;
        }
        let (name, base_url, provider) = &self.specs[next];
        Some(update_if_needed(name.as_str(), base_url.as_str(), provider.as_str(), self.force))
    }

    /// Takes the outcome of the sync that was begun last. A failure is
    /// reported and ends nothing.
    pub fn record(&mut self, synced: SyncResult<E>)
        requires
            old(self).results@.len() < old(self).specs@.len(),
        ensures
            record_step(*old(self), synced, *final(self)),
            final(self).well_formed(),
    {
        let next: usize = self.results.len();
        let name = self.specs[next].0.clone();
        self.results.push((name, updated_snapshot(synced)));
    }
}

/// The update after the next specification has been synced with this outcome.
pub open spec fn record_step<E>(
    update: UpdateAll<E>,
    synced: SyncResult<E>,
    after: UpdateAll<E>,
) -> bool {
    &&& update.results@.len() < update.specs@.len()
    &&& after.specs == update.specs
    &&& after.force == update.force
    &&& after.results@ == update.results@.push(
        (update.specs@[update.results@.len() as int].0, new_snapshot(synced)),
    )
}

/// `updates` are the states of an update of `specs` from its beginning, and
/// `synced` the outcomes that led from each to the next.
pub open spec fn update_run<E>(
    specs: Vec<(String, String, String)>,
    updates: Seq<UpdateAll<E>>,
    synced: Seq<SyncResult<E>>,
) -> bool {
    &&& updates.len() == synced.len() + 1
    &&& updates[0].specs == specs
    &&& updates[0].results@ == report(specs@, Seq::<SyncResult<E>>::empty())
    &&& forall|i: int|
        0 <= i < synced.len() ==> record_step(updates[i], #[trigger] synced[i], updates[i + 1])
}

/// An update reports every specification once, in the order given, under its
/// own name and with its own outcome, whatever came of the others.
pub proof fn law_every_spec_is_reported_in_order<E>(
    specs: Vec<(String, String, String)>,
    updates: Seq<UpdateAll<E>>,
    synced: Seq<SyncResult<E>>,
)
    requires
        update_run(specs, updates, synced),
    ensures
        updates.last().specs == specs,
        updates.last().results@ == report(specs@, synced),
        synced.len() <= specs@.len(),
    decreases synced.len(),
{
    if synced.len() > 0 {
        let n = synced.len() - 1;
        let outcome = synced[n];
        assert(record_step(updates[n], outcome, updates[n + 1]));
        let first = updates.drop_last();
        let made = synced.drop_last();
        assert forall|i: int| 0 <= i < made.len() implies record_step(
            first[i],
            #[trigger] made[i],
            first[i + 1],
        ) by {
            assert(record_step(updates[i], synced[i], updates[i + 1]));
        }
        law_every_spec_is_reported_in_order(specs, first, made);
        assert(report(specs@, synced) =~= report(specs@, made).push(
            (specs@[n].0, new_snapshot(outcome)),
        ));
    } else {
        assert(synced =~= Seq::empty());
    }
}

/// A sync that ended with a new snapshot is reported with the very id that it
/// ended with, one that kept its snapshot with none, and one that failed with
/// its failure. So the report tells new snapshots apart.
pub proof fn law_new_snapshots_are_reported_by_id<E>(id: i64, other: i64, failure: E)
    ensures
        new_snapshot(Ok::<(i64, bool), E>((id, true))) == Ok::<Option<i64>, E>(Some(id)),
        new_snapshot(Ok::<(i64, bool), E>((id, false))) == Ok::<Option<i64>, E>(None),
        new_snapshot(Err::<(i64, bool), E>(failure)) == Err::<Option<i64>, E>(failure),
        new_snapshot(Ok::<(i64, bool), E>((id, true))) == new_snapshot(
            Ok::<(i64, bool), E>((other, true)),
        ) ==> id == other,
{
}

/// After any number of syncs, the report on each specification holds its name
/// and what its own sync came to: the id of its new snapshot, nothing where
/// the snapshot was kept, or its failure. No sync is left out.
pub proof fn law_report_holds_each_outcome<E>(
    specs: Vec<(String, String, String)>,
    updates: Seq<UpdateAll<E>>,
    synced: Seq<SyncResult<E>>,
    i: int,
)
    requires
        update_run(specs, updates, synced),
        0 <= i < synced.len(),
    ensures
        updates.last().results@.len() == synced.len(),
        updates.last().results@[i].0 == specs@[i].0,
        synced[i] matches Ok((id, true)) ==> updates.last().results@[i].1 == Ok::<Option<i64>, E>(
            Some(id),
        ),
        synced[i] matches Ok((_, false)) ==> updates.last().results@[i].1 == Ok::<Option<i64>, E>(
            None,
        ),
        synced[i] matches Err(e) ==> updates.last().results@[i].1 == Err::<Option<i64>, E>(e),
{
    law_every_spec_is_reported_in_order(specs, updates, synced);
}

} // verus!
