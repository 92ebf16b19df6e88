//! What holds of the engine whatever the plugins do.

use vstd::prelude::*;
use super::actions::{QueuedAction, queue_after_all};
use super::engine::{Step, stepped};
use super::handlers::{
    BindOutcome,
    BindRequest,
    handlers_for,
    keys_of,
    outcome_at,
    spec_key,
    spec_recorded,
};
use super::plugin::ids_of;
use super::rebuild::{ScanRecord, ScanState, scan_state, scan_step};
use super::state::UiState;

verus! {

/// Single registration: no two plugins of an engine share an id.
pub proof fn lemma_single_registration<C, A>(state: UiState<C, A>, i: int, j: int)
    requires
        state.wf(),
        0 <= i < state.infos.len(),
        0 <= j < state.infos.len(),
        state.infos[i].id == state.infos[j].id,
    ensures
        i == j,
{
    if i < j {
        assert(state.infos[i].id != state.infos[j].id);
    } else if j < i {
        assert(state.infos[j].id != state.infos[i].id);
    }
}

/// A record changes nothing about which id stands where.
pub proof fn lemma_scan_step_keeps_ids(st: ScanState, record: ScanRecord)
    ensures
        ids_of(scan_step(st, record).infos) == ids_of(st.infos),
{
    assert(ids_of(scan_step(st, record).infos) =~= ids_of(st.infos));
}

/// A walk changes nothing about which id stands where: plugins are rebuilt
/// in place, never added, removed or moved.
pub proof fn lemma_scan_keeps_ids(st: ScanState, log: Seq<ScanRecord>)
    ensures
        ids_of(scan_state(st, log).infos) == ids_of(st.infos),
    decreases log.len(),
{
    if log.len() > 0 {
        lemma_scan_keeps_ids(st, log.drop_last());
        lemma_scan_step_keeps_ids(scan_state(st, log.drop_last()), log.last());
    }
}

/// No step of the engine changes which id stands where.
pub proof fn lemma_step_keeps_ids<C, A>(before: UiState<C, A>, after: UiState<C, A>, step: Step<A>)
    requires
        stepped(before, after, step),
    ensures
        ids_of(after.infos) == ids_of(before.infos),
{
    match step {
        Step::Rebuilt(rebuilt) => {
            let waiting = if before.delay_events {
                before.rebuild_ids
            } else {
                rebuilt.invalidated@
            };
            let start = UiState { rebuild_ids: waiting.drop_first(), delay_events: true, ..before };
            lemma_scan_keeps_ids(start.scan_start(), rebuilt.records@);
        },
        Step::Destroyed => {
            if !before.delay_events {
                assert(ids_of(before.torn_down_infos()) =~= ids_of(before.infos));
            }
        },
        _ => {},
    }
}

/// No re-entrant change: while an event is delivered, hooks change nothing
/// about the plugins, the bound handles or a rebuild pass. What they submit
/// is behind everything that waited.
pub proof fn lemma_delivery_only_queues<C, A>(before: UiState<C, A>, after: UiState<C, A>)
    requires
        after.delivered_from(before),
    ensures
        after.infos == before.infos,
        after.uis == before.uis,
        after.bound == before.bound,
        after.rebuild_ids == before.rebuild_ids,
        after.pending_binds == before.pending_binds,
        before.queue.len() <= after.queue.len(),
        after.queue.take(before.queue.len() as int) == before.queue,
{
    assert(after.queue.take(before.queue.len() as int) =~= before.queue);
}

/// No re-entrant change: while a plugin is rebuilt, what hooks submit is
/// behind everything that waited, and it counts as delayed if a rebuild pass
/// is under way.
pub proof fn lemma_rebuild_only_queues<C, A>(
    before: UiState<C, A>,
    after: UiState<C, A>,
    ix: int,
    record: ScanRecord,
    k: int,
)
    requires
        after.rebuilt_from(before, ix, record),
        before.queue.len() <= k < after.queue.len(),
    ensures
        after.queue.take(before.queue.len() as int) == before.queue,
        after.queue[k].delayed == before.delay_events,
{
    assert(after.queue.take(before.queue.len() as int) =~= before.queue);
}

/// Where each submitted action stands in the queue: behind what waited, in
/// the order of submission.
pub proof fn lemma_queue_after_all<A>(
    queue: Seq<QueuedAction<A>>,
    delay: bool,
    actions: Seq<A>,
    n: nat,
)
    requires
        n <= actions.len(),
    ensures
        queue_after_all(queue, delay, actions, n).len() == queue.len() + n,
        forall|k: int|
            0 <= k < queue.len() ==> queue_after_all(queue, delay, actions, n)[k] == queue[k],
        forall|k: int|
            0 <= k < n ==> queue_after_all(queue, delay, actions, n)[queue.len() + k] == (
            QueuedAction { action: actions[k], delayed: delay }),
    decreases n,
{
    if n > 0 {
        lemma_queue_after_all(queue, delay, actions, (n - 1) as nat);
    }
}

/// The queue after `batch` was submitted during a rebuild and `later` after
/// it.
pub open spec fn queue_after_batches<A>(
    queue: Seq<QueuedAction<A>>,
    batch: Seq<A>,
    later: Seq<A>,
) -> Seq<QueuedAction<A>> {
    queue_after_all(queue_after_all(queue, true, batch, batch.len()), false, later, later.len())
}

/// First in, first out: actions that are submitted while a rebuild is under
/// way stand in the queue in the order of their submission, marked as
/// delayed, behind what waited before and in front of every action that is
/// submitted afterwards.
pub proof fn lemma_queue_fifo<A>(queue: Seq<QueuedAction<A>>, batch: Seq<A>, later: Seq<A>)
    ensures
        queue_after_batches(queue, batch, later).len() == queue.len() + batch.len() + later.len(),
        forall|k: int|
            0 <= k < queue.len() ==> queue_after_batches(queue, batch, later)[k] == queue[k],
        forall|k: int|
            0 <= k < batch.len() ==> queue_after_batches(queue, batch, later)[queue.len() + k] == (
            QueuedAction { action: batch[k], delayed: true }),
        forall|k: int|
            0 <= k < later.len() ==> queue_after_batches(queue, batch, later)[queue.len()
                + batch.len() + k] == (QueuedAction { action: later[k], delayed: false }),
{
    let mid = queue_after_all(queue, true, batch, batch.len());
    lemma_queue_after_all(queue, true, batch, batch.len());
    lemma_queue_after_all(mid, false, later, later.len());
    let all = queue_after_batches(queue, batch, later);
    assert forall|k: int| 0 <= k < batch.len() implies all[queue.len() + k] == (QueuedAction {
        action: batch[k],
        delayed: true,
    }) by {
        assert(all[queue.len() + k] == mid[queue.len() + k]);
    }
    assert forall|k: int| 0 <= k < queue.len() implies all[k] == queue[k] by {
        assert(all[k] == mid[k]);
    }
}

/// Whether the engine went from `states[0]` to the last of `states` by steps
/// that each handed out an action.
pub open spec fn handed_out<C, A>(states: Seq<UiState<C, A>>, steps: Seq<Step<A>>) -> bool {
    &&& states.len() == steps.len() + 1
    &&& forall|k: int|
        0 <= k < steps.len() ==> (#[trigger] steps[k]) is Perform && stepped(
            states[k],
            states[k + 1],
            steps[k],
        )
}

/// First in, first out: the engine hands the waiting actions out in the
/// order of the queue, oldest first, and leaves the rest as it is.
pub proof fn lemma_handed_out_in_order<C, A>(states: Seq<UiState<C, A>>, steps: Seq<Step<A>>)
    requires
        handed_out(states, steps),
    ensures
        steps.len() <= states[0].queue.len(),
        forall|k: int|
            0 <= k < steps.len() ==> (#[trigger] steps[k]) == Step::<A>::Perform(states[0].queue[k]),
        states.last().queue == states[0].queue.skip(steps.len() as int),
    decreases steps.len(),
{
    if steps.len() == 0 {
        assert(states[0].queue.skip(0) =~= states[0].queue);
    } else {
        let n = steps.len() - 1;
        let shorter = states.drop_last();
        let fewer = steps.drop_last();
        assert(handed_out(shorter, fewer)) by {
            assert forall|k: int| 0 <= k < fewer.len() implies (#[trigger] fewer[k]) is Perform
                && stepped(shorter[k], shorter[k + 1], fewer[k]) by {
                assert(fewer[k] == steps[k]);
            }
        }
        lemma_handed_out_in_order(shorter, fewer);
        assert(stepped(states[n], states[n + 1], steps[n]));
        assert(shorter.last() == states[n]);
        assert(states[n].queue == states[0].queue.skip(n));
        assert(states[n].queue[0] == states[0].queue[n]);
        assert(states.last().queue =~= states[0].queue.skip(steps.len() as int));
        assert forall|k: int| 0 <= k < steps.len() implies (#[trigger] steps[k]) == Step::<
            A,
        >::Perform(states[0].queue[k]) by {
            if k < n {
                assert(fewer[k] == steps[k]);
            }
        }
    }
}

/// First in, first out, for the engine: let `batch` be submitted while a
/// rebuild is under way and `later` after it. Then the engine hands out what
/// waited before, then the actions of `batch` in their order, each marked as
/// delayed, and only then the actions of `later`.
pub proof fn lemma_delayed_actions_run_first<C, A>(
    states: Seq<UiState<C, A>>,
    steps: Seq<Step<A>>,
    queue: Seq<QueuedAction<A>>,
    batch: Seq<A>,
    later: Seq<A>,
)
    requires
        handed_out(states, steps),
        states[0].queue == queue_after_batches(queue, batch, later),
    ensures
        forall|k: int|
            0 <= k < batch.len() && queue.len() + k < steps.len() ==> steps[queue.len() + k]
                == Step::<A>::Perform(QueuedAction { action: batch[k], delayed: true }),
        forall|k: int|
            0 <= k < later.len() && queue.len() + batch.len() + k < steps.len()
                ==> steps[queue.len() + batch.len() + k] == Step::<A>::Perform(
                QueuedAction { action: later[k], delayed: false },
            ),
{
    lemma_queue_fifo(queue, batch, later);
    lemma_handed_out_in_order(states, steps);
}

/// What is on record after the host's report is exactly what was wanted,
/// whatever the host reported.
pub proof fn lemma_recorded_as_asked(requests: Seq<BindRequest>, outcomes: Seq<BindOutcome>, n: nat)
    requires
        n <= requests.len(),
    ensures
        keys_of(handlers_for(requests, outcomes, n)) == requests.take(n as int),
    decreases n,
{
    if n == 0 {
        assert(keys_of(handlers_for(requests, outcomes, n)) =~= requests.take(n as int));
    } else {
        lemma_recorded_as_asked(requests, outcomes, (n - 1) as nat);
        let request = requests[n - 1];
        let rest = handlers_for(requests, outcomes, (n - 1) as nat);
        let data = spec_recorded(request, outcome_at(outcomes, n - 1));
        assert(handlers_for(requests, outcomes, n) == rest.push(data));
        assert(spec_key(data) == request);
        assert(keys_of(rest.push(data)) =~= keys_of(rest).push(spec_key(data)));
        assert(requests.take(n as int) =~= requests.take(n - 1).push(request));
    }
}

/// Idempotent binding: once the host has reported on what it was asked to
/// bind, a second look at the same wanted handles changes nothing, whatever
/// the host reported: no handler is forgotten and the host is asked for
/// nothing.
pub proof fn lemma_bind_idempotent<C, A>(
    state: UiState<C, A>,
    wanted: Seq<BindRequest>,
    outcomes: Seq<BindOutcome>,
)
    ensures
        ({
            let bound = UiState {
                bound: handlers_for(wanted, outcomes, wanted.len()),
                pending_binds: None,
                delay_events: false,
                ..state.after_bind_check(wanted)
            };
            bound.after_bind_check(wanted) == bound
        }),
{
    lemma_recorded_as_asked(wanted, outcomes, wanted.len());
    assert(wanted.take(wanted.len() as int) =~= wanted);
}

} // verus!
