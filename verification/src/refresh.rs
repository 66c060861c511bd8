//! Bringing cached artifacts up to date.
//!
//! One unit of work looks after one cache key. It asks the registry for the
//! newest build, downloads it where the cached build is older or missing, and
//! ends with an outcome. The unit itself never touches the network: `step`
//! says what to do next, the caller does it and reports back. Outcomes are
//! written into the index only when a unit has ended, so a transfer that
//! failed leaves the index as it was.

use vstd::prelude::*;
use crate::cacher::{cached_patch, CacheMeta, CachedJarMetaKey, KeyView};
use crate::errors::ErrorKind;

verus! {

/// How a unit ended.
#[derive(Debug, Clone, Copy, PartialEq, Eq, Structural)]
pub enum Outcome {
    /// The cached build was the newest: nothing was downloaded.
    Kept,
    /// The build with this number was downloaded completely.
    Downloaded(u32),
    /// The registry call or the transfer failed.
    Failed(ErrorKind),
}

/// Where a unit stands.
#[derive(Debug, Clone, Copy, PartialEq, Eq, Structural)]
pub enum Phase {
    /// Waiting for the registry's newest build number.
    Asking,
    /// Waiting for the transfer of the build with this number.
    Transferring(u32),
    /// Ended.
    Done(Outcome),
}

/// What the caller reports to a unit.
#[derive(Debug, Clone, Copy)]
pub enum Event {
    /// The registry's answer to the question for the newest build.
    Latest(Result<u32, ErrorKind>),
    /// The end of a transfer.
    Transferred(Result<(), ErrorKind>),
}

/// What the caller does next for a unit.
#[derive(Debug, Clone, Copy, PartialEq, Eq, Structural)]
pub enum Action {
    /// Ask the registry for the newest build number.
    AskLatest,
    /// Download the build with this number.
    Download(u32),
    /// Nothing: the unit has ended.
    Finish,
}

/// A download is due where nothing is cached or the registry's build is newer.
pub open spec fn needs_download(cached: Option<u32>, latest: u32) -> bool {
    cached is None || latest > cached->0
}

/// The phase that follows `phase` on `event`, for a unit whose key has the
/// build `cached` in the index. An event that the phase does not wait for
/// changes nothing.
pub open spec fn next_phase(cached: Option<u32>, phase: Phase, event: Event) -> Phase {
    match (phase, event) {
        (Phase::Asking, Event::Latest(Ok(latest))) => if needs_download(cached, latest) {
            Phase::Transferring(latest)
        } else {
            Phase::Done(Outcome::Kept)
        },
        (Phase::Asking, Event::Latest(Err(e))) => Phase::Done(Outcome::Failed(e)),
        (Phase::Transferring(build), Event::Transferred(Ok(_))) => Phase::Done(
            Outcome::Downloaded(build),
        ),
        (Phase::Transferring(_), Event::Transferred(Err(e))) => Phase::Done(Outcome::Failed(e)),
        _ => phase,
    }
}

/// What a phase asks of the caller.
pub open spec fn action_of(phase: Phase) -> Action {
    match phase {
        Phase::Asking => Action::AskLatest,
        Phase::Transferring(build) => Action::Download(build),
        Phase::Done(_) => Action::Finish,
    }
}

/// The outcome of a unit that has ended.
pub open spec fn outcome_of(phase: Phase) -> Option<Outcome> {
    match phase {
        Phase::Done(outcome) => Some(outcome),
        _ => None,
    }
}

/// How a unit ends when the registry answers `latest` and the transfer, if
/// one is made, ends with `transfer`.
pub open spec fn run_unit(cached: Option<u32>, latest: Result<u32, ErrorKind>, transfer: Result<
    (),
    ErrorKind,
>) -> Outcome {
    match latest {
        Err(e) => Outcome::Failed(e),
        Ok(build) => if needs_download(cached, build) {
            match transfer {
                Ok(_) => Outcome::Downloaded(build),
                Err(e) => Outcome::Failed(e),
            }
        } else {
            Outcome::Kept
        },
    }
}

/// The phase in which every unit starts, and what it asks for first.
pub fn begin() -> (r: (Phase, Action))
    ensures
        r.0 == Phase::Asking,
        r.1 == Action::AskLatest,
{
    (Phase::Asking, Action::AskLatest)
}

/// Moves a unit on by one event and says what to do next.
pub fn step(cached: Option<u32>, phase: Phase, event: Event) -> (r: (Phase, Action))
    ensures
        r.0 == next_phase(cached, phase, event),
        r.1 == action_of(r.0),
{
    let next = match phase {
        Phase::Asking => match event {
            Event::Latest(Ok(latest)) => {
                let due = match cached {
                    Some(build) => latest > build,
                    None => true,
                };
                if due {
                    Phase::Transferring(latest)
                } else {
                    Phase::Done(Outcome::Kept)
                }
            },
            Event::Latest(Err(e)) => Phase::Done(Outcome::Failed(e)),
            Event::Transferred(_) => phase,
        },
        Phase::Transferring(build) => match event {
            Event::Transferred(Ok(_)) => Phase::Done(Outcome::Downloaded(build)),
            Event::Transferred(Err(e)) => Phase::Done(Outcome::Failed(e)),
            Event::Latest(_) => phase,
        },
        Phase::Done(_) => phase,
    };
    let action = match next {
        Phase::Asking => Action::AskLatest,
        Phase::Transferring(build) => Action::Download(build),
        Phase::Done(_) => Action::Finish,
    };
    (next, action)
}

/// The index after a unit for `key` ended with `outcome`.
pub open spec fn settled(index: Map<KeyView, u32>, key: KeyView, outcome: Outcome) -> Map<
    KeyView,
    u32,
> {
    match outcome {
        Outcome::Downloaded(build) => index.insert(key, build),
        _ => index,
    }
}

/// Writes the outcome of the unit for `key` into the index: a completed
/// download becomes the key's build, anything else leaves the index as it
/// was. A failure is handed on.
pub fn settle(meta: &mut CacheMeta, key: CachedJarMetaKey, outcome: Outcome) -> (r: Result<
    (),
    ErrorKind,
>)
    ensures
        final(meta)@ == settled(old(meta)@, key@, outcome),
        r == match outcome {
            Outcome::Failed(e) => Err::<(), ErrorKind>(e),
            _ => Ok::<(), ErrorKind>(()),
        },
{
    match outcome {
        Outcome::Downloaded(build) => {
            meta.insert(key, build);
            Ok(())
        },
        Outcome::Kept => Ok(()),
        Outcome::Failed(e) => Err(e),
    }
}

// ---------------------------------------------------------------------------
// Many units at once
// ---------------------------------------------------------------------------

/// A unit that failed: its place in the list of units, and why.
#[derive(Debug, Clone, Copy, PartialEq, Eq, Structural)]
pub struct Failure {
    pub unit: usize,
    pub error: ErrorKind,
}

/// The units of a list as mathematical values.
pub open spec fn unit_views(units: Seq<(CachedJarMetaKey, Outcome)>) -> Seq<(KeyView, Outcome)> {
    Seq::new(units.len(), |i: int| (units[i].0@, units[i].1))
}

/// The index after the outcomes of all units were written into it, in order.
pub open spec fn settled_all(index: Map<KeyView, u32>, units: Seq<(KeyView, Outcome)>) -> Map<
    KeyView,
    u32,
>
    decreases units.len(),
{
    if units.len() == 0 {
        index
    } else {
        settled(settled_all(index, units.drop_last()), units.last().0, units.last().1)
    }
}

/// The number of units that downloaded a build.
pub open spec fn downloads(units: Seq<(KeyView, Outcome)>) -> nat
    decreases units.len(),
{
    if units.len() == 0 {
        0
    } else {
        downloads(units.drop_last()) + if units.last().1 is Downloaded {
            1nat
        } else {
            0nat
        }
    }
}

/// The units that failed, in the order of the list.
pub open spec fn failures(units: Seq<(KeyView, Outcome)>) -> Seq<Failure>
    decreases units.len(),
{
    if units.len() == 0 {
        Seq::empty()
    } else {
        match units.last().1 {
            Outcome::Failed(error) => failures(units.drop_last()).push(
                Failure { unit: (units.len() - 1) as usize, error },
            ),
            _ => failures(units.drop_last()),
        }
    }
}

/// Writes the outcomes of a batch of units into the index. Every unit
/// counts, whatever became of the others: a failure stops nothing. The
/// batch succeeds, with the number of downloads, only if no unit failed;
/// else every failed unit is reported.
pub fn bulk_refresh(meta: &mut CacheMeta, units: &Vec<(CachedJarMetaKey, Outcome)>) -> (r: Result<
    usize,
    Vec<Failure>,
>)
    ensures
        final(meta)@ == settled_all(old(meta)@, unit_views(units@)),
        match r {
            Ok(n) => failures(unit_views(units@)).len() == 0 && n == downloads(unit_views(units@)),
            Err(failed) => failed@ == failures(unit_views(units@)) && failed@.len() > 0,
        },
{
    let ghost all = unit_views(units@);
    let ghost start = meta@;
    let mut failed: Vec<Failure> = Vec::new();
    let mut done: usize = 0;
    let mut i: usize = 0;
    proof {
        assert(all.take(0) =~= Seq::<(KeyView, Outcome)>::empty());
    }
    while i < units.len()
        invariant
            i <= units@.len(),
            all == unit_views(units@),
            meta@ == settled_all(start, all.take(i as int)),
            failed@ == failures(all.take(i as int)),
            done == downloads(all.take(i as int)),
            done <= i,
        decreases units@.len() - i,
    {
        proof {
            assert(all.take(i + 1).drop_last() =~= all.take(i as int));
            assert(all.take(i + 1).last() == (units@[i as int].0@, units@[i as int].1));
        }
        let outcome = units[i].1;
        match outcome {
            Outcome::Downloaded(_) => {
                done += 1;
            },
            Outcome::Failed(error) => {
                failed.push(Failure { unit: i, error });
            },
            Outcome::Kept => {},
        }
        let _ = settle(meta, units[i].0.duplicate(), outcome);
        i += 1;
    }
    proof {
        assert(all.take(units@.len() as int) =~= all);
    }
    if failed.len() == 0 {
        Ok(done)
    } else {
        Err(failed)
    }
}

// ---------------------------------------------------------------------------
// Laws
// ---------------------------------------------------------------------------

/// The keys of a list of units are pairwise different.
pub open spec fn distinct_units(units: Seq<(KeyView, Outcome)>) -> bool {
    forall|i: int, j: int| 0 <= i < j < units.len() ==> (#[trigger] units[i]).0 != (#[trigger] units[j]).0
}

/// A batch leaves alone every key that none of its units is for.
pub proof fn lemma_settled_other(index: Map<KeyView, u32>, units: Seq<(KeyView, Outcome)>, key: KeyView)
    requires
        forall|i: int| 0 <= i < units.len() ==> (#[trigger] units[i]).0 != key,
    ensures
        cached_patch(settled_all(index, units), key) == cached_patch(index, key),
    decreases units.len(),
{
    if units.len() > 0 {
        let front = units.drop_last();
        assert forall|i: int| 0 <= i < front.len() implies (#[trigger] front[i]).0 != key by {
            assert(front[i] == units[i]);
        }
        lemma_settled_other(index, front, key);
        assert(units.last() == units[units.len() - 1]);
    }
}

/// After a batch over different keys, the key of a unit that downloaded has
/// the downloaded build, and the key of any other unit has what it had.
pub proof fn lemma_settled_unit(index: Map<KeyView, u32>, units: Seq<(KeyView, Outcome)>, i: int)
    requires
        distinct_units(units),
        0 <= i < units.len(),
    ensures
        cached_patch(settled_all(index, units), units[i].0) == match units[i].1 {
            Outcome::Downloaded(build) => Some(build),
            _ => cached_patch(index, units[i].0),
        },
    decreases units.len(),
{
    let front = units.drop_last();
    assert(units.last() == units[units.len() - 1]);
    if i == units.len() - 1 {
        assert forall|j: int| 0 <= j < front.len() implies (#[trigger] front[j]).0 != units[i].0 by {
            assert(front[j] == units[j]);
        }
        lemma_settled_other(index, front, units[i].0);
    } else {
        assert forall|a: int, b: int| 0 <= a < b < front.len() implies (#[trigger] front[a]).0 != (
        #[trigger] front[b]).0 by {
            assert(front[a] == units[a] && front[b] == units[b]);
        }
        lemma_settled_unit(index, front, i);
        assert(front[i] == units[i]);
    }
}

/// The number of places at which the registry's build is newer than the cached one.
pub open spec fn newer_count(cached: Seq<u32>, latest: Seq<u32>) -> nat
    recommends
        cached.len() == latest.len(),
    decreases cached.len(),
{
    if cached.len() == 0 || latest.len() == 0 {
        0
    } else {
        newer_count(cached.drop_last(), latest.drop_last()) + if latest.last() > cached.last() {
            1nat
        } else {
            0nat
        }
    }
}

/// The units of a refresh in which the registry answers every question and
/// every transfer succeeds.
pub open spec fn smooth_units(keys: Seq<KeyView>, cached: Seq<u32>, latest: Seq<u32>) -> Seq<
    (KeyView, Outcome),
> {
    Seq::new(keys.len(), |i: int| (keys[i], run_unit(Some(cached[i]), Ok(latest[i]), Ok(()))))
}

/// A refresh over different keys, in which nothing fails, downloads exactly
/// as many builds as there are keys with a newer build in the registry;
/// each of those keys then has the newer build, and every other entry of the
/// index is as it was.
pub proof fn lemma_bulk_refresh(
    index: Map<KeyView, u32>,
    keys: Seq<KeyView>,
    cached: Seq<u32>,
    latest: Seq<u32>,
)
    requires
        keys.no_duplicates(),
        keys.len() == cached.len(),
        keys.len() == latest.len(),
        forall|i: int| 0 <= i < keys.len() ==> cached_patch(index, #[trigger] keys[i]) == Some(cached[i]),
    ensures
        downloads(smooth_units(keys, cached, latest)) == newer_count(cached, latest),
        failures(smooth_units(keys, cached, latest)).len() == 0,
        forall|i: int|
            0 <= i < keys.len() ==> cached_patch(
                settled_all(index, smooth_units(keys, cached, latest)),
                #[trigger] keys[i],
            ) == Some(if latest[i] > cached[i] { latest[i] } else { cached[i] }),
        forall|key: KeyView|
            !keys.contains(key) ==> cached_patch(
                settled_all(index, smooth_units(keys, cached, latest)),
                key,
            ) == cached_patch(index, key),
{
    let units = smooth_units(keys, cached, latest);
    lemma_smooth_counts(keys, cached, latest);
    assert(distinct_units(units));
    assert forall|i: int| 0 <= i < keys.len() implies cached_patch(
        settled_all(index, units),
        #[trigger] keys[i],
    ) == Some(if latest[i] > cached[i] { latest[i] } else { cached[i] }) by {
        lemma_settled_unit(index, units, i);
        assert(units[i].0 == keys[i]);
    }
    assert forall|key: KeyView| !keys.contains(key) implies cached_patch(
        settled_all(index, units),
        key,
    ) == cached_patch(index, key) by {
        assert forall|i: int| 0 <= i < units.len() implies (#[trigger] units[i]).0 != key by {
            assert(keys[i] == units[i].0);
        }
        lemma_settled_other(index, units, key);
    }
}

proof fn lemma_smooth_counts(keys: Seq<KeyView>, cached: Seq<u32>, latest: Seq<u32>)
    requires
        keys.len() == cached.len(),
        keys.len() == latest.len(),
    ensures
        downloads(smooth_units(keys, cached, latest)) == newer_count(cached, latest),
        failures(smooth_units(keys, cached, latest)).len() == 0,
    decreases keys.len(),
{
    if keys.len() > 0 {
        lemma_smooth_counts(keys.drop_last(), cached.drop_last(), latest.drop_last());
        assert(smooth_units(keys, cached, latest).drop_last() =~= smooth_units(
            keys.drop_last(),
            cached.drop_last(),
            latest.drop_last(),
        ));
    }
}

/// A unit for a key without cached build downloads once and then ends; a
/// unit whose cached build is the registry's newest ends without a download.
pub proof fn lemma_unit_downloads(cached: Option<u32>, latest: u32, transfer: Result<(), ErrorKind>)
    ensures
        cached is None ==> action_of(next_phase(cached, Phase::Asking, Event::Latest(Ok(latest))))
            == Action::Download(latest),
        cached == Some(latest) ==> action_of(
            next_phase(cached, Phase::Asking, Event::Latest(Ok(latest))),
        ) == Action::Finish,
        action_of(next_phase(cached, Phase::Transferring(latest), Event::Transferred(transfer)))
            == Action::Finish,
        outcome_of(
            next_phase(
                cached,
                next_phase(cached, Phase::Asking, Event::Latest(Ok(latest))),
                Event::Transferred(transfer),
            ),
        ) == Some(run_unit(cached, Ok(latest), transfer)),
{
}

} // verus!
