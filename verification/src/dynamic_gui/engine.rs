//! The engine: an ordered list of plugins, the actions that wait for their
//! turn, and the handles that have event handlers bound.

use vstd::prelude::*;
use super::actions::{
    ActionDroppedError,
    ActionQueue,
    Outbox,
    QueuedAction,
    lemma_queue_after_all_extends,
    queue_after_all,
    queue_after_submit,
    queue_extends,
};
use super::answers::{
    Rebuilding,
    all_torn_down,
    infos_torn_upto,
    lemma_torn_down_others,
    tear_down,
    torn_down,
    Stages,
    stages_hold,
    all_asked_rebuild,
    build_follows,
    build_record_follows,
    lemma_record_follows_others,
    others_at,
    hooks_rebuilt,
    infos_built_upto,
    kind_of,
    outcome_of,
    rebuild_hooks,
    record_follows,
    reported,
    walk_follows,
    walk_record_follows,
    asks_nothing,
    all_raw_answered,
    all_report,
    all_taken,
    asked_rebuild,
    deliver,
    deliver_raw,
    destroy_asked,
    lemma_boxes_prefix,
    queue_after_boxes,
    lemma_polled_prefix,
    lemma_wanted_prefix,
    polled,
    polled_upto,
    push_requests,
    reported_handles,
    requests_of,
    wanted,
    wanted_upto,
};
use super::dispatch::{RawDispatch, event_targets, lemma_event_targets_bounded, spec_event_targets};
use super::handle::{ControlHandle, RawEvent};
use super::laws::lemma_recorded_as_asked;
use super::handlers::{
    BindOutcome,
    BindReport,
    BindRequest,
    EventHandlerData,
    current_handles,
    handlers_for,
    keys_of,
    lemma_dropped_none,
    lemma_kept_all,
    record_bindings,
    same_handles,
    unbind_windows,
};
use super::plugin::{
    DynamicUiHooks,
    Kind,
    PluginData,
    PluginInfo,
    PluginState,
    UiList,
    ids_unique,
    is_registered,
};
use super::rebuild::{
    ScanOutcome,
    ScanRecord,
    ScanState,
    bound_after,
    enqueue_children,
    info_after,
    is_candidate,
    is_child_among,
    lemma_with_children,
    lemma_without_id,
    needs_look,
    no_duplicates,
    note_affected,
    recorded_parent,
    remove_id,
    scan_state,
    scan_step,
    unbound_after,
    unbinds_built_only,
    record_unbinds_built,
    walk_admits,
    walk_complete,
    walk_stops,
    without_id,
};
use super::state::{
    UiState,
    built_in_order,
    built_positions,
    lemma_built_position,
    fresh_info,
    handles_in_order,
    index_of,
    lemma_index_of,
    lemma_update_keeps_wf,
};

verus! {

/// Two plugins were registered under the same id.
#[derive(Clone, Copy, PartialEq, Eq, Structural, Debug)]
pub struct DuplicatePluginError {
    pub kind: Kind,
}

/// What one walk of a rebuild pass did.
pub struct Rebuilt {
    /// The ids of the plugins that asked for a rebuild, if this walk was the
    /// first of its pass. Empty otherwise.
    pub invalidated: Vec<Kind>,
    /// The id that the walk was made for.
    pub target: Kind,
    /// The plugins that the walk looked at, in the order of the walk.
    pub records: Vec<ScanRecord>,
    /// The handles that the host has to bind now, if the pass is over and
    /// the handles that need handlers are no longer those that are bound.
    /// The host reports back through [`DynamicUi::finish_bind`].
    pub bind: Option<Vec<BindRequest>>,
}

/// What the engine did when it was asked to go on, and what the host has to
/// do before it asks again.
pub enum Step<A> {
    /// Teardown was requested: every plugin is torn down and no handle is
    /// bound any more.
    Destroyed,
    /// The host has to run this action, then ask again.
    Perform(QueuedAction<A>),
    /// A walk of a rebuild pass was made. If it comes with handles to bind,
    /// the host has to bind them and report back before it asks again.
    Rebuilt(Rebuilt),
    /// The engine waits for the host's report on the handles it was asked to
    /// bind.
    AwaitingBind,
    /// Nothing is left to do.
    Idle,
}

/// Whether `rebuilt` tells what a step did that went from `before` to
/// `after` by a walk.
///
/// If no pass was under way the walk is the first of a new pass: no action
/// waited, teardown was not requested, and the built plugins in
/// `rebuilt.invalidated` asked for a rebuild. Otherwise the walk goes on with
/// the pass. Either way the walk is for the id at the front and follows the
/// rules of a walk. When no id waits after it, the pass is over; then either
/// the bound handles are still the ones that are wanted and actions may run
/// again, or every handler is forgotten and the host is asked to bind.
pub open spec fn rebuilt_step<C, A>(
    before: UiState<C, A>,
    after: UiState<C, A>,
    rebuilt: Rebuilt,
) -> bool {
    let waiting = if before.delay_events {
        before.rebuild_ids
    } else {
        rebuilt.invalidated@
    };
    let start = UiState { rebuild_ids: waiting.drop_first(), delay_events: true, ..before };
    let walked = scan_state(start.scan_start(), rebuilt.records@);
    let bound = bound_after(before.bound, rebuilt.records@);
    let unbound = unbound_after(before.bound, before.unbound, rebuilt.records@);
    &&& before.pending_binds.is_none()
    &&& (before.delay_events ==> rebuilt.invalidated@.len() == 0)
    &&& (!before.delay_events ==> !before.should_destroy && before.queue.len() == 0
        && built_in_order(before.infos, rebuilt.invalidated@))
    &&& waiting.len() > 0
    &&& rebuilt.target == waiting[0]
    &&& walk_complete(start.scan_start(), rebuilt.target, rebuilt.records@)
    &&& unbinds_built_only(start.scan_start(), rebuilt.records@)
    &&& after.infos == walked.infos
    &&& after.rebuild_ids == walked.rebuild_ids
    &&& after.uis.len() == before.uis.len()
    &&& queue_extends(before.queue, after.queue, true)
    &&& after.prevent_recursive_events == before.prevent_recursive_events
    &&& (before.should_destroy ==> after.should_destroy)
    &&& match rebuilt.bind {
        Some(plan) => {
            &&& after.rebuild_ids.len() == 0
            &&& plan@ != keys_of(bound)
            &&& handles_in_order(after.infos, plan@)
            &&& after.bound.len() == 0
            &&& after.unbound == unbound + bound
            &&& after.pending_binds == Some(plan@)
            &&& after.delay_events
        },
        None => {
            &&& after.bound == bound
            &&& after.unbound == unbound
            &&& after.pending_binds.is_none()
            &&& after.delay_events == (after.rebuild_ids.len() > 0)
        },
    }
}

/// The bookkeeping that the walk of `rebuilt` started from, where `before` is
/// the state before the step: the entries of `before`, and the waiting ids
/// without the one that the walk is for.
pub open spec fn rebuilt_start<C, A>(before: UiState<C, A>, rebuilt: Rebuilt) -> ScanState {
    let waiting = if before.delay_events {
        before.rebuild_ids
    } else {
        rebuilt.invalidated@
    };
    ScanState {
        infos: before.infos,
        rebuild_ids: waiting.drop_first(),
        affected_parents: Seq::empty(),
    }
}

/// Whether the hooks of the plugins account for a walk that started from
/// `start`, left `records` and went from `before` to `after`: every record is
/// what the hooks of its plugin answered, and what they asked for is in the
/// queue, behind what waited and in the order of the walk.
pub open spec fn walked_by_hooks<C: DynamicUiHooks>(
    before: UiState<C, C::Action>,
    after: UiState<C, C::Action>,
    start: ScanState,
    records: Seq<ScanRecord>,
) -> bool {
    exists|outs: Seq<Outbox<C::Action>>|
        {
            &&& #[trigger] walk_follows(before.uis, after.uis, start, records, outs)
            &&& after.queue == queue_after_boxes(before.queue, true, outs, outs.len() as int)
            &&& after.should_destroy == (before.should_destroy || destroy_asked(
                outs,
                outs.len() as int,
            ))
        }
}

/// Whether the hooks of the plugins account for a build of all plugins in
/// list order that left `records` and went from `before` to `after`.
pub open spec fn built_by_hooks<C: DynamicUiHooks>(
    before: UiState<C, C::Action>,
    after: UiState<C, C::Action>,
    records: Seq<ScanRecord>,
) -> bool {
    exists|outs: Seq<Outbox<C::Action>>|
        {
            &&& #[trigger] build_follows(before.uis, after.uis, before.infos, records, outs)
            &&& after.queue == queue_after_boxes(before.queue, true, outs, outs.len() as int)
            &&& after.should_destroy == (before.should_destroy || destroy_asked(
                outs,
                outs.len() as int,
            ))
        }
}

/// Whether the hooks of the plugins account for a teardown of all plugins
/// that went from `before` to `after`: every built plugin was told that it
/// is torn down, and what the hooks asked for is in the queue, behind what
/// waited and in list order.
pub open spec fn torn_by_hooks<C: DynamicUiHooks>(
    before: UiState<C, C::Action>,
    after: UiState<C, C::Action>,
) -> bool {
    exists|outs: Seq<Outbox<C::Action>>|
        {
            &&& #[trigger] all_torn_down(before.uis, after.uis, before.infos, outs)
            &&& after.queue == queue_after_boxes(before.queue, true, outs, outs.len() as int)
        }
}

/// Whether the hooks of the plugins account for each of the walks
/// `rebuilts`, where walk `k` went from `states[k]` to `states[k + 1]`.
pub open spec fn walks_follow<C: DynamicUiHooks>(
    states: Seq<UiState<C, C::Action>>,
    rebuilts: Seq<Rebuilt>,
) -> bool {
    forall|k: int|
        0 <= k < rebuilts.len() ==> walked_by_hooks(
            states[k],
            states[k + 1],
            rebuilt_start(states[k], #[trigger] rebuilts[k]),
            rebuilts[k].records@,
        )
}

/// Whether teardown went from `before` to `after`.
///
/// Teardown is on record as requested and every handler is forgotten. Unless
/// a rebuild pass was under way, every plugin is torn down as well.
pub open spec fn destroyed_step<C, A>(before: UiState<C, A>, after: UiState<C, A>) -> bool {
    &&& after.should_destroy
    &&& after.bound.len() == 0
    &&& after.unbound == before.unbound + before.bound
    &&& after.uis.len() == before.uis.len()
    &&& after.delay_events == before.delay_events
    &&& after.prevent_recursive_events == before.prevent_recursive_events
    &&& after.rebuild_ids == before.rebuild_ids
    &&& after.pending_binds == before.pending_binds
    &&& if before.delay_events {
        after.infos == before.infos && after.uis == before.uis && after.queue == before.queue
    } else {
        after.infos == before.torn_down_infos() && queue_extends(before.queue, after.queue, true)
    }
}

/// Whether `step` tells what the engine did to get from `before` to
/// `after`.
pub open spec fn stepped<C, A>(before: UiState<C, A>, after: UiState<C, A>, step: Step<A>) -> bool {
    match step {
        Step::AwaitingBind => before.pending_binds.is_some() && after == before,
        Step::Rebuilt(rebuilt) => rebuilt_step(before, after, rebuilt),
        Step::Destroyed => !before.delay_events && before.should_destroy && destroyed_step(
            before,
            after,
        ),
        Step::Perform(queued) => {
            &&& !before.delay_events
            &&& !before.should_destroy
            &&& before.queue.len() > 0
            &&& queued == before.queue[0]
            &&& after == UiState { queue: before.queue.drop_first(), ..before }
        },
        Step::Idle => {
            &&& !before.delay_events
            &&& !before.should_destroy
            &&& before.queue.len() == 0
            &&& after == before
        },
    }
}

/// Whether a step asks nothing of the host: it is a walk that comes without
/// handles to bind.
pub open spec fn is_plain_walk<A>(step: Step<A>) -> bool {
    match step {
        Step::Rebuilt(rebuilt) => rebuilt.bind.is_none(),
        _ => false,
    }
}

/// What a run of steps came to.
pub struct Run<A> {
    /// The walks that were made and asked nothing of the host, in their
    /// order.
    pub walks: Vec<Rebuilt>,
    /// The step that ended the run: the first that asks something of the
    /// host or finds nothing left to do. `None` if the run was cut short.
    pub last: Option<Step<A>>,
}

/// Whether `run` tells what the engine did on its way through `states`,
/// which begins with the state before the run, up to the state `after`.
///
/// Each walk of the run is one step from a state to the next. The step that
/// ended the run leads from the last of `states` to `after`. A run that was
/// cut short after `max_walks` walks ends in the last of `states`.
pub open spec fn ran<C, A>(
    states: Seq<UiState<C, A>>,
    after: UiState<C, A>,
    run: Run<A>,
    max_walks: usize,
) -> bool {
    &&& states.len() == run.walks@.len() + 1
    &&& run.walks@.len() <= max_walks
    &&& forall|k: int|
        0 <= k < run.walks@.len() ==> (#[trigger] run.walks@[k]).bind.is_none() && rebuilt_step(
            states[k],
            states[k + 1],
            run.walks@[k],
        )
    &&& match run.last {
        Some(step) => !is_plain_walk(step) && stepped(states.last(), after, step),
        None => run.walks@.len() == max_walks && after == states.last(),
    }
}

/// Stores many plugins and keeps them built, bound and up to date.
pub struct DynamicUi<C: DynamicUiHooks> {
    ui_list: UiList<C>,
    actions: ActionQueue<C::Action>,
    /// The handles that have event handlers bound.
    event_handlers: Vec<EventHandlerData>,
    /// Handlers that the engine has forgotten and that the host still has to
    /// take off the native resources.
    unbound: Vec<EventHandlerData>,
    /// The ids that wait for a rebuild in the pass that is under way.
    rebuild_ids: Vec<Kind>,
    /// The handles that the host was asked to bind, until it reports back.
    pending_binds: Option<Vec<BindRequest>>,
}

impl<C: DynamicUiHooks> View for DynamicUi<C> {
    type V = UiState<C, C::Action>;

    closed spec fn view(&self) -> UiState<C, C::Action> {
        UiState {
            infos: self.ui_list.infos(),
            uis: self.ui_list.uis(),
            queue: self.actions.queue(),
            delay_events: self.actions.delay_events(),
            should_destroy: self.actions.should_destroy(),
            prevent_recursive_events: self.actions.prevent_recursive_events(),
            bound: self.event_handlers@,
            unbound: self.unbound@,
            rebuild_ids: self.rebuild_ids@,
            pending_binds: match self.pending_binds {
                Some(v) => Some(v@),
                None => None,
            },
        }
    }
}

impl<C: DynamicUiHooks> DynamicUi<C> {
    /// An engine for the given plugins, each registered under the id that
    /// comes with it. No plugin is built yet.
    ///
    /// Fails if two plugins come with the same id.
    pub fn new(ui_list: Vec<(Kind, C)>) -> (r: Result<Self, DuplicatePluginError>)
        ensures
            match r {
                Ok(ui) => {
                    &&& ui@.wf()
                    &&& ui@.infos == Seq::new(ui_list@.len(), |i: int| fresh_info(ui_list@[i].0))
                    &&& ui@.uis == Seq::new(ui_list@.len(), |i: int| ui_list@[i].1)
                    &&& ui@.queue.len() == 0
                    &&& !ui@.delay_events
                    &&& !ui@.should_destroy
                    &&& !ui@.prevent_recursive_events
                    &&& ui@.bound.len() == 0
                    &&& ui@.unbound.len() == 0
                    &&& ui@.rebuild_ids.len() == 0
                    &&& ui@.pending_binds.is_none()
                },
                Err(e) => exists|i: int, j: int|
                    0 <= i < j < ui_list@.len() && ui_list@[i].0 == e.kind && ui_list@[j].0
                        == e.kind,
            },
            r.is_ok() == no_duplicates(Seq::new(ui_list@.len(), |i: int| ui_list@[i].0)),
    {
        let ghost all = ui_list@;
        let ghost ids = Seq::new(all.len(), |i: int| all[i].0);
        let mut rest = ui_list;
        let mut items: Vec<PluginData<C>> = Vec::new();
        while rest.len() > 0
            invariant
                all == ui_list@,
                ids == Seq::new(all.len(), |i: int| all[i].0),
                items@.len() + rest@.len() == all.len(),
                rest@ == all.subrange(items@.len() as int, all.len() as int),
                forall|i: int|
                    0 <= i < items@.len() ==> (#[trigger] items@[i]).info == fresh_info(all[i].0)
                        && items@[i].ui == all[i].1,
                forall|i: int, j: int| 0 <= i < j < items@.len() ==> all[i].0 != all[j].0,
            decreases rest@.len(),
        {
            let ghost n = items@.len() as int;
            let (id, ui) = rest.remove(0);
            assert(id == all[n].0 && ui == all[n].1);
            let mut ix: usize = 0;
            while ix < items.len()
                invariant
                    all == ui_list@,
                    ids == Seq::new(all.len(), |i: int| all[i].0),
                    ix <= items@.len(),
                    n == items@.len(),
                    n < all.len(),
                    id == all[n].0,
                    forall|i: int|
                        0 <= i < items@.len() ==> (#[trigger] items@[i]).info == fresh_info(
                            all[i].0,
                        ),
                    forall|i: int| 0 <= i < ix ==> all[i].0 != id,
                decreases items@.len() - ix,
            {
                if items[ix].info.id == id {
                    proof {
                        assert(all[ix as int].0 == id);
                        assert(ids[ix as int] == ids[n]);
                    }
                    return Err(DuplicatePluginError { kind: id });
                }
                ix = ix + 1;
            }
            items.push(
                PluginData {
                    ui,
                    info: PluginInfo { id, parent_id: None, state: PluginState::Destroyed },
                },
            );
            proof {
                assert(rest@ =~= all.subrange(items@.len() as int, all.len() as int));
            }
        }
        let ui_list = UiList::from_items(items);
        let r = DynamicUi {
            ui_list,
            actions: ActionQueue::new(),
            event_handlers: Vec::new(),
            unbound: Vec::new(),
            rebuild_ids: Vec::new(),
            pending_binds: None,
        };
        proof {
            assert(r@.infos =~= Seq::new(all.len(), |i: int| fresh_info(all[i].0)));
            assert(r@.uis =~= Seq::new(all.len(), |i: int| all[i].1));
            assert(no_duplicates(ids));
        }
        Ok(r)
    }

    /// The number of plugins.
    pub fn len(&self) -> (r: usize)
        ensures
            r == self@.infos.len(),
    {
        self.ui_list.len()
    }

    /// The bookkeeping of the plugin at `ix`.
    pub fn plugin_info(&self, ix: usize) -> (r: Option<PluginInfo>)
        ensures
            r == if ix < self@.infos.len() {
                Some(self@.infos[ix as int])
            } else {
                None
            },
    {
        if ix < self.ui_list.len() {
            Some(self.ui_list.info(ix))
        } else {
            None
        }
    }

    /// The list of plugins, as hooks see it.
    pub closed spec fn list(&self) -> UiList<C> {
        self.ui_list
    }

    /// The list holds the plugins and the bookkeeping of the engine's view.
    pub proof fn lemma_list(&self)
        ensures
            self.list().infos() == self@.infos,
            self.list().uis() == self@.uis,
    {
    }

    /// The list of plugins, as hooks see it.
    pub fn ui_list(&self) -> (r: &UiList<C>)
        ensures
            *r == self.list(),
            r.infos() == self@.infos,
            r.uis() == self@.uis,
    {
        &self.ui_list
    }

    /// Read access to the plugin that was registered under `kind`.
    ///
    /// The plugin that is found may be dormant.
    pub fn get_ui(&self, kind: Kind) -> (r: Option<&C>)
        ensures
            r.is_some() == is_registered(self@.infos, kind),
            match r {
                Some(ui) => exists|ix: int|
                    0 <= ix < self@.infos.len() && #[trigger] self@.infos[ix].id == kind && *ui
                        == self@.uis[ix],
                None => true,
            },
    {
        let r = self.ui_list.get_ui(kind);
        proof {
            match r {
                Some(ui) => {
                    let ix = choose|ix: int|
                        0 <= ix < self.ui_list.infos().len() && #[trigger] self.ui_list.infos()[ix].id
                            == kind && *ui == self.ui_list.uis()[ix] && forall|j: int|
                            0 <= j < ix ==> self.ui_list.infos()[j].id != kind;
                    assert(self@.infos[ix].id == kind);
                },
                None => {},
            }
        }
        r
    }

    /// Whether new actions have to wait.
    pub fn is_delayed(&self) -> (r: bool)
        ensures
            r == self@.delay_events,
    {
        self.actions.is_delayed()
    }

    /// Whether teardown has been requested.
    pub fn is_destroy_requested(&self) -> (r: bool)
        ensures
            r == self@.should_destroy,
    {
        self.actions.is_destroy_requested()
    }

    /// The number of actions that wait for their turn.
    pub fn queued_actions(&self) -> (r: usize)
        ensures
            r == self@.queue.len(),
    {
        self.actions.len()
    }

    /// The handles that have event handlers bound.
    pub fn event_handlers(&self) -> (r: &Vec<EventHandlerData>)
        ensures
            r@ == self@.bound,
    {
        &self.event_handlers
    }

    /// The ids that wait for a rebuild, oldest first.
    pub fn waiting_rebuilds(&self) -> (r: &Vec<Kind>)
        ensures
            r@ == self@.rebuild_ids,
    {
        &self.rebuild_ids
    }

    /// Hands out the handlers that the engine has forgotten since the last
    /// call. The host takes them off the native resources.
    pub fn take_unbound(&mut self) -> (r: Vec<EventHandlerData>)
        ensures
            r@ == old(self)@.unbound,
            final(self)@ == (UiState { unbound: Seq::empty(), ..old(self)@ }),
    {
        let mut taken: Vec<EventHandlerData> = Vec::new();
        std::mem::swap(&mut self.unbound, &mut taken);
        proof {
            assert(self@.unbound =~= Seq::empty());
        }
        taken
    }

    /// Chooses whether actions that a hook submits during event delivery have
    /// to wait until the delivery is over.
    pub fn set_prevent_recursive_events(&mut self, value: bool)
        ensures
            final(self)@ == (UiState { prevent_recursive_events: value, ..old(self)@ }),
    {
        self.actions.set_prevent_recursive_events(value);
    }

    /// Runs `f` while events and actions are paused. What `f` submits
    /// through the outbox it is given waits in the queue, marked as delayed,
    /// and has not run when this returns; if `f` asks for teardown, that is
    /// on record. Whether the engine delays events is afterwards what it was.
    pub fn with_paused_events<R, F: FnOnce(&mut Outbox<C::Action>) -> R>(&mut self, f: F) -> (r: R)
        requires
            forall|m: &mut Outbox<C::Action>| asks_nothing(*m) ==> #[trigger] f.requires((m,)),
        ensures
            final(self).list() == old(self).list(),
            exists|m: &mut Outbox<C::Action>|
                {
                    &&& asks_nothing(*m)
                    &&& #[trigger] f.ensures((m,), r)
                    &&& final(self)@ == (UiState {
                        queue: queue_after_all(
                            old(self)@.queue,
                            true,
                            final(m).actions@,
                            final(m).actions@.len(),
                        ),
                        should_destroy: old(self)@.should_destroy || final(m).destroy,
                        ..old(self)@
                    })
                },
    {
        let was_delayed = self.actions.is_delayed();
        self.actions.set_delay(true);
        let mut outbox = Outbox::new();
        let ghost fresh = outbox;
        let r = f(&mut outbox);
        let ghost out = outbox;
        self.actions.absorb(outbox);
        self.actions.set_delay(was_delayed);
        proof {
            let m = choose|m: &mut Outbox<C::Action>|
                *m == fresh && #[trigger] f.ensures((m,), r) && *final(m) == out;
            assert(asks_nothing(*m));
        }
        r
    }

    /// Submits an action. It is put at the back of the queue and handed out
    /// by [`Self::next_step`] when its turn has come. The result is `true` if
    /// a rebuild is under way, so that the action will count as delayed.
    pub fn preform_action(&mut self, action: C::Action) -> (deferred: bool)
        ensures
            deferred == old(self)@.delay_events,
            final(self)@ == (UiState {
                queue: queue_after_submit(old(self)@.queue, old(self)@.delay_events, action),
                ..old(self)@
            }),
    {
        self.actions.submit(action)
    }

    /// Submits an action unless a rebuild is under way; then the action is
    /// dropped.
    pub fn maybe_preform_action(&mut self, action: C::Action) -> (r: Result<
        (),
        ActionDroppedError,
    >)
        ensures
            r.is_err() == old(self)@.delay_events,
            final(self)@ == (UiState {
                queue: if old(self)@.delay_events {
                    old(self)@.queue
                } else {
                    queue_after_submit(old(self)@.queue, false, action)
                },
                ..old(self)@
            }),
    {
        self.actions.submit_if_idle(action)
    }

    /// Submits `immediate` if no rebuild is under way. Otherwise submits
    /// `delayed`, if there is one, as a delayed action. The result is `true`
    /// if a rebuild was under way.
    pub fn preform_action_adv(&mut self, immediate: C::Action, delayed: Option<C::Action>) -> (deferred:
        bool)
        ensures
            deferred == old(self)@.delay_events,
            final(self)@ == (UiState {
                queue: if !old(self)@.delay_events {
                    queue_after_submit(old(self)@.queue, false, immediate)
                } else {
                    match delayed {
                        Some(a) => queue_after_submit(old(self)@.queue, true, a),
                        None => old(self)@.queue,
                    }
                },
                ..old(self)@
            }),
    {
        self.actions.submit_adv(immediate, delayed)
    }

    /// Tears the plugin at `ix` down if it is built, and builds it again
    /// unless it declines.
    ///
    /// The plugin is out of the list while its hooks run.
    fn rebuild_plugin(&mut self, ix: usize) -> (r: (ScanRecord, Ghost<Outbox<C::Action>>))
        requires
            old(self)@.plugins_wf(),
            ix < old(self)@.infos.len(),
        ensures
            final(self)@.plugins_wf(),
            final(self)@.rebuilt_from(old(self)@, ix as int, r.0),
            record_follows(old(self)@.uis, final(self)@.uis, old(self)@.infos, false, r.0, r.1@),
            final(self)@.queue == queue_after_all(
                old(self)@.queue,
                old(self)@.delay_events,
                r.1@.actions@,
                r.1@.actions@.len(),
            ),
            final(self)@.should_destroy == (old(self)@.should_destroy || r.1@.destroy),
    {
        let ghost before = self@;
        let data = self.ui_list.detach(ix);
        let ghost others = self.ui_list;
        let PluginData { ui, info } = data;
        let id = info.id;
        proof {
            lemma_kept_all(before.bound, before.bound.len());
            lemma_dropped_none(before.bound, before.bound.len());
            assert(before.bound.take(before.bound.len() as int) =~= before.bound);
            assert(before.unbound + Seq::<EventHandlerData>::empty() =~= before.unbound);
        }
        let was_built = info.state == PluginState::Built;
        let rebuilding = rebuild_hooks(ui, info.state, &self.ui_list);
        let ghost answers = rebuilding;
        let Rebuilding { ui, outbox, given_up, should_build, parent, built } = rebuilding;
        if was_built {
            unbind_windows(&mut self.event_handlers, &given_up, &mut self.unbound);
        } else {
            proof {
                let st = choose|st: Stages<C>| #[trigger]
                    stages_hold(before.uis[ix as int], info.state, others, answers, st);
                assert(given_up@ =~= Seq::<ControlHandle>::empty());
            }
        }
        proof {
            lemma_queue_after_all_extends(
                self.actions.queue(),
                self.actions.delay_events(),
                outbox.actions@,
                outbox.actions@.len(),
            );
        }
        self.actions.absorb(outbox);
        let outcome = if should_build {
            let parent_id = match parent {
                Some(p) => if p.1 == id || self.ui_list.contains(p.1) {
                    Some(p.1)
                } else {
                    None
                },
                None => None,
            };
            proof {
                match parent {
                    Some(p) => {
                        if p.1 == id {
                            assert(before.infos[ix as int].id == p.1);
                        } else if is_registered(self.ui_list.infos(), p.1) {
                            let j = choose|j: int|
                                0 <= j < self.ui_list.infos().len()
                                    && #[trigger] self.ui_list.infos()[j].id == p.1;
                            if j < ix {
                                assert(before.infos[j].id == p.1);
                            } else {
                                assert(before.infos[j + 1].id == p.1);
                            }
                        } else if is_registered(before.infos, p.1) {
                            let j = choose|j: int|
                                0 <= j < before.infos.len() && #[trigger] before.infos[j].id
                                    == p.1;
                            if j < ix {
                                assert(self.ui_list.infos()[j].id == p.1);
                            } else {
                                assert(self.ui_list.infos()[j - 1].id == p.1);
                            }
                        }
                    },
                    None => {},
                }
                assert(parent_id == recorded_parent(before.infos, kind_of(parent)));
            }
            let error = match built {
                Some(Err(e)) => Some(e),
                _ => None,
            };
            ScanOutcome::Built { parent_id, error }
        } else {
            ScanOutcome::Dormant
        };
        let new_info = match &outcome {
            ScanOutcome::Built { parent_id, error } => PluginInfo {
                id,
                parent_id: *parent_id,
                state: PluginState::Built,
            },
            _ => PluginInfo { id, parent_id: None, state: PluginState::Destroyed },
        };
        self.ui_list.attach(ix, PluginData { ui, info: new_info });
        let record = ScanRecord { index: ix, plugin_id: id, outcome, unbound_windows: given_up };
        proof {
            assert(new_info == info_after(before.infos[ix as int], record.outcome));
            assert(self@.infos =~= before.infos.update(ix as int, new_info));
            assert(self@.uis.len() == before.uis.len());
            assert forall|j: int| 0 <= j < self@.uis.len() && j != ix implies self@.uis[j]
                == before.uis[j] by {}
            lemma_update_keeps_wf(before.infos, ix as int, new_info);
            assert(record.outcome == outcome_of(answers, before.infos));
            assert(hooks_rebuilt(before.uis[ix as int], before.infos[ix as int].state, others, answers));
            assert(others.infos() == before.infos.remove(ix as int));
            assert(others.uis() =~= others_at(before.uis, self@.uis, ix as int));
            assert(self@.uis[ix as int] == answers.ui);
            assert(record.unbound_windows@ == answers.given_up@);
            assert(!(record.outcome is Unordered));
            assert(record_follows(
                before.uis,
                self@.uis,
                before.infos,
                false,
                record,
                answers.outbox,
            ));
        }
        (record, Ghost(answers.outbox))
    }

    /// Walks the list once for `target`: rebuilds the plugin with that id
    /// and, if it sits under a parent, every later child of an affected
    /// parent whose place among its siblings matters.
    fn walk(&mut self, target: Kind) -> (r: (Vec<ScanRecord>, Ghost<Seq<Outbox<C::Action>>>))
        requires
            old(self)@.plugins_wf(),
            old(self)@.rebuild_ids_wf(),
        ensures
            final(self)@.plugins_wf(),
            final(self)@.rebuild_ids_wf(),
            final(self)@.walked_from(old(self)@, target, r.0@),
            walk_follows(old(self)@.uis, final(self)@.uis, old(self)@.scan_start(), r.0@, r.1@),
            final(self)@.queue == queue_after_boxes(
                old(self)@.queue,
                old(self)@.delay_events,
                r.1@,
                r.1@.len() as int,
            ),
            final(self)@.should_destroy == (old(self)@.should_destroy || destroy_asked(
                r.1@,
                r.1@.len() as int,
            )),
    {
        let ghost before = self@;
        let ghost st0 = before.scan_start();
        let len = self.ui_list.len();
        let mut records: Vec<ScanRecord> = Vec::new();
        let mut affected: Vec<Kind> = Vec::new();
        let ghost mut outs: Seq<Outbox<C::Action>> = Seq::empty();
        let mut ix: usize = 0;
        let mut done = false;
        while ix < len && !done
            invariant
                st0 == before.scan_start(),
                len == self@.infos.len(),
                len == before.infos.len(),
                ix <= len,
                self@.plugins_wf(),
                self@.rebuild_ids_wf(),
                scan_state(st0, records@).infos == self@.infos,
                scan_state(st0, records@).rebuild_ids == self@.rebuild_ids,
                scan_state(st0, records@).affected_parents == affected@,
                done ==> walk_stops(st0, records@) && walk_admits(
                    st0,
                    target,
                    records@,
                    records@.last().index + 1,
                ),
                !done ==> !walk_stops(st0, records@) && walk_admits(st0, target, records@, ix as int),
                self@.uis.len() == before.uis.len(),
                self@.bound == bound_after(before.bound, records@),
                self@.unbound == unbound_after(before.bound, before.unbound, records@),
                self@.hooks_ran_since(before),
                self@.pending_binds == before.pending_binds,
                forall|j: int| ix <= j < len ==> self@.uis[j] == before.uis[j],
                forall|k: int| 0 <= k < records@.len() ==> (#[trigger] records@[k]).index < ix,
                walk_follows(before.uis, self@.uis, st0, records@, outs),
                unbinds_built_only(st0, records@),
                self@.queue == queue_after_boxes(
                    before.queue,
                    before.delay_events,
                    outs,
                    outs.len() as int,
                ),
                self@.should_destroy == (before.should_destroy || destroy_asked(
                    outs,
                    outs.len() as int,
                )),
            decreases len - ix,
        {
            let ghost st = scan_state(st0, records@);
            let ghost log = records@;
            let ghost uis = self@.uis;
            let ghost gathered = outs;
            let info = self.ui_list.info(ix);
            let look = needs_look(info, target, &affected);
            assert(look == is_candidate(st, target, ix as int));
            if look {
                let ordered = if affected.len() == 0 {
                    true
                } else {
                    self.ui_list.ui_at(ix).is_ordered_in_parent()
                };
                if !ordered {
                    let record = ScanRecord {
                        index: ix,
                        plugin_id: info.id,
                        outcome: ScanOutcome::Unordered,
                        unbound_windows: Vec::new(),
                    };
                    let left_alone: Outbox<C::Action> = Outbox::new();
                    records.push(record);
                    proof {
                        outs = gathered.push(left_alone);
                        lemma_boxes_prefix(
                            before.queue,
                            before.delay_events,
                            gathered,
                            outs,
                            gathered.len() as int,
                        );
                        assert(records@.take(log.len() as int) =~= log);
                        assert(walk_record_follows(
                            before.uis,
                            self@.uis,
                            st0,
                            records@,
                            log.len() as int,
                            left_alone,
                        ));
                        assert forall|k: int| 0 <= k < records@.len() implies #[trigger] walk_record_follows(
                            before.uis,
                            self@.uis,
                            st0,
                            records@,
                            k,
                            outs[k],
                        ) by {
                            if k < log.len() {
                                assert(records@.take(k) =~= log.take(k));
                                assert(walk_record_follows(
                                    before.uis,
                                    uis,
                                    st0,
                                    log,
                                    k,
                                    gathered[k],
                                ));
                            }
                        }
                        assert forall|k: int| 0 <= k < records@.len() implies #[trigger] record_unbinds_built(
                            st0,
                            records@,
                            k,
                        ) by {
                            if k < log.len() {
                                assert(records@.take(k) =~= log.take(k));
                                assert(record_unbinds_built(st0, log, k));
                            }
                        }
                        assert(records@.drop_last() =~= log);
                        assert(scan_step(st, record) == st);
                        lemma_kept_all(self@.bound, self@.bound.len());
                        lemma_dropped_none(self@.bound, self@.bound.len());
                        assert(self@.bound.take(self@.bound.len() as int) =~= self@.bound);
                        assert(self@.unbound + Seq::<EventHandlerData>::empty() =~= self@.unbound);
                    }
                } else {
                    let ghost mid = self@;
                    remove_id(&mut self.rebuild_ids, info.id);
                    let (record, asked_for) = self.rebuild_plugin(ix);
                    let ghost rebuilt_uis = self@.uis;
                    note_affected(&mut affected, &record.outcome);
                    enqueue_children(&mut self.rebuild_ids, &self.ui_list, info.id);
                    proof {
                        lemma_without_id(mid.rebuild_ids, info.id, mid.rebuild_ids.len());
                        let trimmed = without_id(mid.rebuild_ids, info.id, mid.rebuild_ids.len());
                        lemma_with_children(trimmed, self@.infos, info.id, self@.infos.len());
                        assert(mid.rebuild_ids.take(mid.rebuild_ids.len() as int)
                            =~= mid.rebuild_ids);
                        lemma_update_keeps_wf(
                            mid.infos,
                            ix as int,
                            info_after(mid.infos[ix as int], record.outcome),
                        );
                        assert forall|k: int| 0 <= k < self@.rebuild_ids.len() implies is_registered(
                            self@.infos,
                            #[trigger] self@.rebuild_ids[k],
                        ) by {
                            let x = self@.rebuild_ids[k];
                            assert(self@.rebuild_ids.contains(x));
                            if trimmed.contains(x) {
                                assert(mid.rebuild_ids.contains(x));
                                let m = choose|m: int|
                                    0 <= m < mid.rebuild_ids.len() && mid.rebuild_ids[m] == x;
                                assert(is_registered(mid.infos, mid.rebuild_ids[m]));
                            } else {
                                assert(is_child_among(self@.infos, info.id, self@.infos.len(), x));
                                let i = choose|i: int|
                                    0 <= i < self@.infos.len() && #[trigger] self@.infos[i].id == x
                                        && self@.infos[i].parent_id == Some(info.id);
                                assert(is_registered(self@.infos, x));
                            }
                        }
                        assert(self@.hooks_ran_since(before));
                    }
                    records.push(record);
                    proof {
                        outs = gathered.push(asked_for@);
                        lemma_boxes_prefix(
                            before.queue,
                            before.delay_events,
                            gathered,
                            outs,
                            gathered.len() as int,
                        );
                        assert(records@.take(log.len() as int) =~= log);
                        lemma_record_follows_others(
                            uis,
                            self@.uis,
                            before.uis,
                            self@.uis,
                            st.infos,
                            false,
                            record,
                            asked_for@,
                        );
                        assert(record_follows(
                            before.uis,
                            self@.uis,
                            st.infos,
                            st.affected_parents.len() > 0,
                            record,
                            asked_for@,
                        ));
                        assert(walk_record_follows(
                            before.uis,
                            self@.uis,
                            st0,
                            records@,
                            log.len() as int,
                            asked_for@,
                        ));
                        assert forall|k: int| 0 <= k < records@.len() implies #[trigger] walk_record_follows(
                            before.uis,
                            self@.uis,
                            st0,
                            records@,
                            k,
                            outs[k],
                        ) by {
                            if k < log.len() {
                                assert(records@.take(k) =~= log.take(k));
                                assert(log[k].index < ix);
                                assert(walk_record_follows(
                                    before.uis,
                                    uis,
                                    st0,
                                    log,
                                    k,
                                    gathered[k],
                                ));
                                lemma_record_follows_others(
                                    before.uis,
                                    uis,
                                    before.uis,
                                    self@.uis,
                                    scan_state(st0, log.take(k)).infos,
                                    scan_state(st0, log.take(k)).affected_parents.len() > 0,
                                    log[k],
                                    gathered[k],
                                );
                            }
                        }
                        assert forall|k: int| 0 <= k < records@.len() implies #[trigger] record_unbinds_built(
                            st0,
                            records@,
                            k,
                        ) by {
                            if k < log.len() {
                                assert(records@.take(k) =~= log.take(k));
                                assert(record_unbinds_built(st0, log, k));
                            }
                        }
                        assert(records@.drop_last() =~= log);
                        assert(records@.last() == record);
                        assert(scan_step(st, record).infos == self@.infos);
                        assert(scan_step(st, record).rebuild_ids == self@.rebuild_ids);
                        assert(scan_step(st, record).affected_parents == affected@);
                    }
                    if affected.len() == 0 {
                        done = true;
                    }
                }
                proof {
                    assert(walk_admits(st0, target, records@, ix + 1));
                }
            } else {
                proof {
                    assert(walk_admits(st0, target, log, ix + 1));
                }
            }
            ix = ix + 1;
        }
        (records, Ghost(outs))
    }

    /// Builds every plugin, in list order. New actions have to wait while
    /// this goes on.
    ///
    /// A plugin that fails to build stays in the list as built; what its
    /// `build` reported is in its record.
    pub fn initial_build(&mut self) -> (records: Vec<ScanRecord>)
        requires
            old(self)@.wf(),
        ensures
            final(self)@.wf(),
            final(self)@.built_from(old(self)@, records@),
            built_by_hooks(old(self)@, final(self)@, records@),
    {
        let ghost before = self@;
        let ghost mut outs: Seq<Outbox<C::Action>> = Seq::empty();
        let was_delayed = self.actions.is_delayed();
        self.actions.set_delay(true);
        let len = self.ui_list.len();
        let mut records: Vec<ScanRecord> = Vec::new();
        let mut ix: usize = 0;
        proof {
            assert(self@.infos =~= Seq::new(
                len as nat,
                |i: int|
                    if i < ix {
                        info_after(before.infos[i], records@[i].outcome)
                    } else {
                        before.infos[i]
                    },
            ));
        }
        while ix < len
            invariant
                len == before.infos.len(),
                len == self@.infos.len(),
                ix <= len,
                records@.len() == ix,
                before.plugins_wf(),
                self@.plugins_wf(),
                forall|i: int|
                    0 <= i < ix ==> {
                        &&& (#[trigger] records@[i]).index == i
                        &&& records@[i].plugin_id == before.infos[i].id
                        &&& records@[i].outcome.is_rebuild()
                        &&& match records@[i].outcome {
                            ScanOutcome::Built { parent_id: Some(p), error } => is_registered(
                                before.infos,
                                p,
                            ),
                            _ => true,
                        }
                        &&& (before.infos[i].state != PluginState::Built
                            ==> records@[i].unbound_windows@.len() == 0)
                    },
                forall|k: Kind| is_registered(before.infos, k) == is_registered(self@.infos, k),
                self@.infos == Seq::new(
                    len as nat,
                    |i: int|
                        if i < ix {
                            info_after(before.infos[i], records@[i].outcome)
                        } else {
                            before.infos[i]
                        },
                ),
                self@.uis.len() == before.uis.len(),
                self@.bound == bound_after(before.bound, records@),
                self@.unbound == unbound_after(before.bound, before.unbound, records@),
                queue_extends(before.queue, self@.queue, true),
                self@.delay_events,
                self@.prevent_recursive_events == before.prevent_recursive_events,
                before.should_destroy ==> self@.should_destroy,
                self@.rebuild_ids == before.rebuild_ids,
                self@.pending_binds == before.pending_binds,
                forall|j: int| ix <= j < len ==> self@.uis[j] == before.uis[j],
                build_follows(before.uis, self@.uis, before.infos, records@, outs),
                self@.queue == queue_after_boxes(before.queue, true, outs, outs.len() as int),
                self@.should_destroy == (before.should_destroy || destroy_asked(
                    outs,
                    outs.len() as int,
                )),
            decreases len - ix,
        {
            let ghost mid = self@;
            let ghost log = records@;
            let ghost gathered = outs;
            let (record, asked_for) = self.rebuild_plugin(ix);
            proof {
                lemma_update_keeps_wf(
                    mid.infos,
                    ix as int,
                    info_after(mid.infos[ix as int], record.outcome),
                );
            }
            records.push(record);
            proof {
                outs = gathered.push(asked_for@);
                lemma_boxes_prefix(before.queue, true, gathered, outs, gathered.len() as int);
                assert forall|k: int| 0 <= k < records@.len() implies #[trigger] build_record_follows(
                    before.uis,
                    self@.uis,
                    before.infos,
                    records@,
                    k,
                    outs[k],
                ) by {
                    assert(infos_built_upto(before.infos, records@, k) =~= infos_built_upto(
                        before.infos,
                        log,
                        k,
                    ));
                    if k < log.len() {
                        assert(records@[k] == log[k]);
                        assert(build_record_follows(
                            before.uis,
                            mid.uis,
                            before.infos,
                            log,
                            k,
                            gathered[k],
                        ));
                        lemma_record_follows_others(
                            before.uis,
                            mid.uis,
                            before.uis,
                            self@.uis,
                            infos_built_upto(before.infos, log, k),
                            false,
                            log[k],
                            gathered[k],
                        );
                    } else {
                        assert(infos_built_upto(before.infos, log, k) =~= mid.infos);
                        lemma_record_follows_others(
                            mid.uis,
                            self@.uis,
                            before.uis,
                            self@.uis,
                            mid.infos,
                            false,
                            record,
                            asked_for@,
                        );
                    }
                }
                assert(records@.drop_last() =~= log);
                assert(self@.infos =~= Seq::new(
                    len as nat,
                    |i: int|
                        if i < ix + 1 {
                            info_after(before.infos[i], records@[i].outcome)
                        } else {
                            before.infos[i]
                        },
                ));
            }
            ix = ix + 1;
        }
        self.actions.set_delay(was_delayed);
        proof {
            assert(self@.infos =~= Seq::new(
                before.infos.len(),
                |i: int| info_after(before.infos[i], records@[i].outcome),
            ));
            assert(build_follows(before.uis, self@.uis, before.infos, records@, outs));
        }
        records
    }

    /// Builds every plugin and then decides which handles need event
    /// handlers. If there are any, the host has to bind them and report back
    /// through [`Self::finish_bind`]; until then new actions have to wait.
    ///
    /// While a rebuild pass is under way the plugins are built and the
    /// question of the handles is left to the pass.
    pub fn build_ui(&mut self) -> (r: (Vec<ScanRecord>, Option<Vec<BindRequest>>))
        requires
            old(self)@.wf(),
        ensures
            final(self)@.wf(),
            ({
                let built = UiState {
                    bound: bound_after(old(self)@.bound, r.0@),
                    unbound: unbound_after(old(self)@.bound, old(self)@.unbound, r.0@),
                    ..final(self)@
                };
                let bound = bound_after(old(self)@.bound, r.0@);
                let unbound = unbound_after(old(self)@.bound, old(self)@.unbound, r.0@);
                match r.1 {
                    Some(plan) => {
                        &&& !old(self)@.delay_events
                        &&& plan@ != keys_of(bound)
                        &&& handles_in_order(final(self)@.infos, plan@)
                        &&& final(self)@.bound.len() == 0
                        &&& final(self)@.unbound == unbound + bound
                        &&& final(self)@.pending_binds == Some(plan@)
                        &&& final(self)@.delay_events
                        &&& (UiState {
                            pending_binds: None,
                            delay_events: false,
                            ..built
                        }).built_from(old(self)@, r.0@)
                    },
                    None => final(self)@.built_from(old(self)@, r.0@),
                }
            }),
            built_by_hooks(old(self)@, final(self)@, r.0@),
            !old(self)@.is_rebuilding() ==> exists|answers: Seq<(Vec<ControlHandle>, bool)>|
                {
                    &&& #[trigger] all_report(final(self).list(), answers)
                    &&& r.1.is_none() == (#[trigger] wanted(final(self)@.infos, answers)
                        == keys_of(bound_after(old(self)@.bound, r.0@)))
                    &&& r.1 matches Some(p) ==> p@ == wanted(final(self)@.infos, answers)
                },
    {
        let ghost before = self@;
        let records = self.initial_build();
        let ghost mid = self@;
        let ghost list = self.list();
        let bind = self.bind_event_handlers();
        proof {
            assert(self.list() == list);
            assert(self@.infos == mid.infos);
            if !before.is_rebuilding() {
                assert(!mid.is_rebuilding());
                assert(mid.bound == bound_after(before.bound, records@));
                assert(exists|answers: Seq<(Vec<ControlHandle>, bool)>|
                    {
                        &&& #[trigger] all_report(list, answers)
                        &&& bind.is_none() == (#[trigger] wanted(mid.infos, answers)
                            == keys_of(mid.bound))
                        &&& bind matches Some(p) ==> p@ == wanted(mid.infos, answers)
                    });
            }
            match &bind {
                Some(plan) => {
                    let built = UiState {
                        bound: bound_after(before.bound, records@),
                        unbound: unbound_after(before.bound, before.unbound, records@),
                        ..self@
                    };
                    assert((UiState { pending_binds: None, delay_events: false, ..built }) == mid);
                },
                None => {},
            }
        }
        (records, bind)
    }

    /// Asks every built plugin whether it has to be rebuilt, each with the
    /// whole list. The result holds the ids of those that do, in list order.
    fn poll_rebuilds(&self) -> (ids: Vec<Kind>)
        requires
            self@.plugins_wf(),
        ensures
            built_in_order(self@.infos, ids@),
            no_duplicates(ids@),
            exists|answers: Seq<bool>| #[trigger]
                all_asked_rebuild(self.list(), answers) && ids@ == polled(self@.infos, answers),
    {
        let ghost infos = self@.infos;
        let ghost mut answers: Seq<bool> = Seq::empty();
        let mut ids: Vec<Kind> = Vec::new();
        let mut ix: usize = 0;
        while ix < self.ui_list.len()
            invariant
                infos == self@.infos,
                ids_unique(infos),
                ix <= infos.len(),
                forall|k: int|
                    0 <= k < ids@.len() ==> is_registered(infos, #[trigger] ids@[k])
                        && infos[index_of(infos, ids@[k])].state == PluginState::Built && index_of(
                        infos,
                        ids@[k],
                    ) < ix,
                forall|k: int, l: int|
                    0 <= k < l < ids@.len() ==> index_of(infos, ids@[k]) < index_of(
                        infos,
                        ids@[l],
                    ),
                answers.len() == ix,
                forall|i: int|
                    0 <= i < ix && infos[i].state == PluginState::Built ==> #[trigger] asked_rebuild(
                        self@.uis[i],
                        self.list(),
                        answers[i],
                    ),
                ids@ == polled_upto(infos, answers, ix as int),
            decreases infos.len() - ix,
        {
            let ghost asked = answers;
            let info = self.ui_list.info(ix);
            let mut answer = false;
            if info.state == PluginState::Built {
                answer = self.ui_list.ui_at(ix).need_rebuild(&self.ui_list);
                if answer {
                    proof {
                        lemma_index_of(infos, ix as int);
                    }
                    ids.push(info.id);
                }
            }
            proof {
                answers = asked.push(answer);
                lemma_polled_prefix(infos, asked, answers, ix as int);
                assert forall|i: int|
                    0 <= i < ix + 1 && infos[i].state == PluginState::Built implies #[trigger] asked_rebuild(
                    self@.uis[i],
                    self.list(),
                    answers[i],
                ) by {
                    if i < ix {
                        assert(asked_rebuild(self@.uis[i], self.list(), asked[i]));
                    }
                }
            }
            ix = ix + 1;
        }
        proof {
            assert forall|k: int, l: int| 0 <= k < l < ids@.len() implies ids@[k] != ids@[l] by {
                assert(index_of(infos, ids@[k]) < index_of(infos, ids@[l]));
            }
            assert(all_asked_rebuild(self.list(), answers));
        }
        ids
    }

    /// The handles that need event handlers: those that the built plugins
    /// report, plugin after plugin in list order.
    ///
    /// Each built plugin is asked with `handles`, then `after_handles` with
    /// the whole list, then `need_raw_events_for_children`; the result holds
    /// one request for each handle that it reported.
    pub fn all_handles(&self) -> (handles: Vec<BindRequest>)
        requires
            self@.plugins_wf(),
        ensures
            handles_in_order(self@.infos, handles@),
            exists|answers: Seq<(Vec<ControlHandle>, bool)>| #[trigger]
                all_report(self.list(), answers) && handles@ == wanted(self@.infos, answers),
    {
        let ghost infos = self@.infos;
        let ghost mut answers: Seq<(Vec<ControlHandle>, bool)> = Seq::empty();
        let mut all: Vec<BindRequest> = Vec::new();
        let mut ix: usize = 0;
        while ix < self.ui_list.len()
            invariant
                infos == self@.infos,
                ids_unique(infos),
                ix <= infos.len(),
                handles_in_order(infos, all@),
                forall|k: int|
                    0 <= k < all@.len() ==> index_of(infos, (#[trigger] all@[k]).plugin_id) < ix,
                answers.len() == ix,
                forall|i: int|
                    0 <= i < ix && infos[i].state == PluginState::Built ==> #[trigger] reported(
                        self.list(),
                        i,
                        answers[i],
                    ),
                all@ == wanted_upto(infos, answers, ix as int),
            decreases infos.len() - ix,
        {
            let ghost asked = answers;
            let ghost so_far = all@;
            let info = self.ui_list.info(ix);
            if info.state == PluginState::Built {
                let answer = reported_handles(&self.ui_list, ix);
                push_requests(&mut all, info.id, answer.1, &answer.0);
                proof {
                    answers = asked.push(answer);
                    lemma_index_of(infos, ix as int);
                    let added = requests_of(info.id, answer.1, answer.0@);
                    assert forall|k: int| 0 <= k < all@.len() implies is_registered(
                        infos,
                        (#[trigger] all@[k]).plugin_id,
                    ) && infos[index_of(infos, all@[k].plugin_id)].state == PluginState::Built
                        && index_of(infos, all@[k].plugin_id) <= ix && (k >= so_far.len()
                        ==> all@[k].plugin_id == info.id && all@[k].raw_child_events == answer.1)
                        && (k < so_far.len() ==> index_of(infos, all@[k].plugin_id) < ix) by {
                        if k < so_far.len() {
                            assert(all@[k] == so_far[k]);
                        } else {
                            assert(all@[k] == added[k - so_far.len()]);
                        }
                    }
                }
            } else {
                proof {
                    answers = asked.push(arbitrary());
                }
            }
            proof {
                lemma_wanted_prefix(infos, asked, answers, ix as int);
                assert forall|i: int|
                    0 <= i < ix + 1 && infos[i].state
                        == PluginState::Built implies #[trigger] reported(
                    self.list(),
                    i,
                    answers[i],
                ) by {
                    if i < ix {
                        assert(reported(self.list(), i, asked[i]));
                    }
                }
            }
            ix = ix + 1;
        }
        proof {
            assert(all_report(self.list(), answers));
        }
        all
    }

    /// Compares the handles that need event handlers with those that are
    /// bound. If they differ, every handler is forgotten and the result is
    /// what the host has to bind.
    fn check_bindings(&mut self) -> (plan: Option<Vec<BindRequest>>)
        requires
            old(self)@.plugins_wf(),
            old(self)@.pending_binds.is_none(),
        ensures
            match plan {
                Some(p) => {
                    &&& p@ != keys_of(old(self)@.bound)
                    &&& handles_in_order(old(self)@.infos, p@)
                    &&& final(self)@ == (UiState {
                        bound: Seq::empty(),
                        unbound: old(self)@.unbound + old(self)@.bound,
                        pending_binds: Some(p@),
                        ..old(self)@
                    })
                },
                None => final(self)@ == old(self)@,
            },
            exists|answers: Seq<(Vec<ControlHandle>, bool)>|
                {
                    &&& #[trigger] all_report(old(self).list(), answers)
                    &&& plan.is_none() == (#[trigger] wanted(old(self)@.infos, answers)
                        == keys_of(old(self)@.bound))
                    &&& plan matches Some(p) ==> p@ == wanted(old(self)@.infos, answers)
                },
            final(self).list() == old(self).list(),
    {
        let wanted = self.all_handles();
        let current = current_handles(&self.event_handlers);
        if same_handles(&wanted, &current) {
            None
        } else {
            let mut handlers: Vec<EventHandlerData> = Vec::new();
            std::mem::swap(&mut self.event_handlers, &mut handlers);
            self.unbound.append(&mut handlers);
            let plan = vstd::slice::slice_to_vec(wanted.as_slice());
            self.pending_binds = Some(wanted);
            proof {
                assert(self@.bound =~= Seq::empty());
            }
            Some(plan)
        }
    }

    /// Looks whether the handles that need event handlers are still the ones
    /// that are bound. If not, every handler is forgotten, new actions have to
    /// wait, and the result is what the host has to bind before it reports
    /// back through [`Self::finish_bind`].
    ///
    /// Nothing happens while a rebuild pass is under way: the pass ends with
    /// this look.
    pub fn bind_event_handlers(&mut self) -> (plan: Option<Vec<BindRequest>>)
        requires
            old(self)@.wf(),
        ensures
            final(self)@.wf(),
            old(self)@.is_rebuilding() ==> plan.is_none(),
            match plan {
                Some(p) => {
                    &&& p@ != keys_of(old(self)@.bound)
                    &&& handles_in_order(old(self)@.infos, p@)
                    &&& final(self)@ == (UiState {
                        delay_events: true,
                        ..old(self)@.after_bind_check(p@)
                    })
                },
                None => final(self)@ == old(self)@,
            },
            !old(self)@.is_rebuilding() ==> exists|answers: Seq<(Vec<ControlHandle>, bool)>|
                {
                    &&& #[trigger] all_report(old(self).list(), answers)
                    &&& plan.is_none() == (#[trigger] wanted(old(self)@.infos, answers)
                        == keys_of(old(self)@.bound))
                    &&& plan matches Some(p) ==> p@ == wanted(old(self)@.infos, answers)
                },
            final(self).list() == old(self).list(),
    {
        if self.actions.is_delayed() {
            None
        } else {
            let plan = self.check_bindings();
            if plan.is_some() {
                self.actions.set_delay(true);
            }
            plan
        }
    }

    /// Goes on with the engine's work and says what the host has to do next.
    ///
    /// In this order: if the host owes a report on handles, the engine
    /// waits. If a rebuild pass is under way, one more walk is made. If
    /// teardown was requested, it is carried out. If an action waits, the
    /// oldest is handed out. Otherwise every built plugin is asked whether it
    /// has to be rebuilt, and if one does, a pass starts with its first walk.
    ///
    /// The host calls this again and again, doing what each step asks for,
    /// until the step is [`Step::Idle`] or [`Step::Destroyed`].
    pub fn next_step(&mut self) -> (step: Step<C::Action>)
        requires
            old(self)@.wf(),
        ensures
            final(self)@.wf(),
            stepped(old(self)@, final(self)@, step),
            old(self)@.pending_binds.is_none() && old(self)@.can_run_now() && !old(
                self,
            )@.should_destroy ==> exists|answers: Seq<bool>|
                {
                    &&& #[trigger] all_asked_rebuild(old(self).list(), answers)
                    &&& match step {
                        Step::Idle => polled(old(self)@.infos, answers).len() == 0,
                        Step::Rebuilt(rebuilt) => rebuilt.invalidated@ == polled(
                            old(self)@.infos,
                            answers,
                        ),
                        _ => false,
                    }
                },
            match step {
                Step::Rebuilt(rebuilt) => walked_by_hooks(
                    old(self)@,
                    final(self)@,
                    rebuilt_start(old(self)@, rebuilt),
                    rebuilt.records@,
                ),
                Step::Destroyed => torn_by_hooks(old(self)@, final(self)@),
                _ => true,
            },
            match step {
                Step::Rebuilt(rebuilt) => final(self)@.rebuild_ids.len() == 0 ==> exists|
                    answers: Seq<(Vec<ControlHandle>, bool)>,
                |
                    {
                        &&& #[trigger] all_report(final(self).list(), answers)
                        &&& rebuilt.bind.is_none() == (#[trigger] wanted(
                            final(self)@.infos,
                            answers,
                        ) == keys_of(bound_after(old(self)@.bound, rebuilt.records@)))
                        &&& rebuilt.bind matches Some(p) ==> p@ == wanted(
                            final(self)@.infos,
                            answers,
                        )
                    },
                _ => true,
            },
    {
        let ghost before = self@;
        if self.pending_binds.is_some() {
            return Step::AwaitingBind;
        }
        let mut invalidated: Vec<Kind> = Vec::new();
        let ghost mut answers: Seq<bool> = Seq::empty();
        if !self.actions.is_delayed() {
            if self.actions.is_destroy_requested() {
                self.destroy_ui();
                return Step::Destroyed;
            }
            match self.actions.pop() {
                Some(queued) => {
                    return Step::Perform(queued);
                },
                None => {},
            }
            invalidated = self.poll_rebuilds();
            proof {
                assert(self.list() == old(self).list());
                answers = choose|answers: Seq<bool>| #[trigger]
                    all_asked_rebuild(self.list(), answers) && invalidated@ == polled(
                        self@.infos,
                        answers,
                    );
            }
            if invalidated.len() == 0 {
                return Step::Idle;
            }
            self.rebuild_ids = vstd::slice::slice_to_vec(invalidated.as_slice());
            self.actions.set_delay(true);
        }
        proof {
            assert(!before.delay_events ==> all_asked_rebuild(old(self).list(), answers)
                && invalidated@ == polled(before.infos, answers));
        }
        let ghost waiting = self@.rebuild_ids;
        let target = self.rebuild_ids.remove(0);
        proof {
            assert(self@.rebuild_ids =~= waiting.drop_first());
            assert forall|k: int| 0 <= k < self@.rebuild_ids.len() implies is_registered(
                self@.infos,
                #[trigger] self@.rebuild_ids[k],
            ) by {
                assert(self@.rebuild_ids[k] == waiting[k + 1]);
            }
            assert forall|i: int, j: int|
                0 <= i < j < self@.rebuild_ids.len() implies self@.rebuild_ids[i]
                != self@.rebuild_ids[j] by {
                assert(self@.rebuild_ids[i] == waiting[i + 1]);
                assert(self@.rebuild_ids[j] == waiting[j + 1]);
            }
        }
        let ghost start = self@;
        let (records, asked_for) = self.walk(target);
        let ghost walked = self@;
        let ghost list = self.list();
        proof {
            assert(start.scan_start() == rebuilt_start(before, Rebuilt {
                invalidated,
                target,
                records,
                bind: None,
            }));
            assert(start.queue == before.queue && start.should_destroy == before.should_destroy);
            assert(start.delay_events);
        }
        let bind = if self.rebuild_ids.len() == 0 {
            let plan = self.check_bindings();
            if plan.is_none() {
                self.actions.set_delay(false);
            }
            plan
        } else {
            None
        };
        proof {
            assert(self.list() == list);
            assert(self@.infos == walked.infos);
            assert(walked.bound == bound_after(before.bound, records@));
            if self@.rebuild_ids.len() == 0 {
                assert(exists|answers: Seq<(Vec<ControlHandle>, bool)>|
                    {
                        &&& #[trigger] all_report(list, answers)
                        &&& bind.is_none() == (#[trigger] wanted(walked.infos, answers)
                            == keys_of(walked.bound))
                        &&& bind matches Some(p) ==> p@ == wanted(walked.infos, answers)
                    });
            }
        }
        proof {
            assert(walk_follows(
                before.uis,
                self@.uis,
                start.scan_start(),
                records@,
                asked_for@,
            ));
        }
        Step::Rebuilt(Rebuilt { invalidated, target, records, bind })
    }

    /// Goes on with the engine's work for as long as it asks nothing of the
    /// host, but for no more than `max_walks` walks of a rebuild pass.
    ///
    /// The run ends with the first step that hands out an action, asks for
    /// handles to be bound, waits for the host's report, carries out
    /// teardown or finds nothing left to do. Plugins that ask for a rebuild
    /// again and again make a pass that never ends; then the run is cut
    /// short.
    ///
    /// The second part of the result is the way of the engine through its
    /// states, for proofs.
    pub fn run(&mut self, max_walks: usize) -> (r: (
        Run<C::Action>,
        Ghost<Seq<UiState<C, C::Action>>>,
    ))
        requires
            old(self)@.wf(),
        ensures
            final(self)@.wf(),
            r.1@[0] == old(self)@,
            ran(r.1@, final(self)@, r.0, max_walks),
            walks_follow(r.1@, r.0.walks@),
            match r.0.last {
                Some(Step::Rebuilt(rebuilt)) => walked_by_hooks(
                    r.1@.last(),
                    final(self)@,
                    rebuilt_start(r.1@.last(), rebuilt),
                    rebuilt.records@,
                ),
                _ => true,
            },
    {
        let mut walks: Vec<Rebuilt> = Vec::new();
        let ghost mut states: Seq<UiState<C, C::Action>> = seq![self@];
        while walks.len() < max_walks
            invariant
                self@.wf(),
                states.len() == walks@.len() + 1,
                walks@.len() <= max_walks,
                states[0] == old(self)@,
                states.last() == self@,
                forall|k: int|
                    0 <= k < walks@.len() ==> (#[trigger] walks@[k]).bind.is_none() && rebuilt_step(
                        states[k],
                        states[k + 1],
                        walks@[k],
                    ),
                walks_follow(states, walks@),
            decreases max_walks - walks@.len(),
        {
            let ghost before = self@;
            let step = self.next_step();
            match step {
                Step::Rebuilt(rebuilt) => {
                    if rebuilt.bind.is_none() {
                        let ghost so_far = walks@;
                        let ghost way = states;
                        walks.push(rebuilt);
                        proof {
                            states = states.push(self@);
                            assert forall|k: int| 0 <= k < walks@.len() implies (
                            #[trigger] walks@[k]).bind.is_none() && rebuilt_step(
                                states[k],
                                states[k + 1],
                                walks@[k],
                            ) by {
                                if k < so_far.len() {
                                    assert(walks@[k] == so_far[k]);
                                    assert(states[k] == way[k]);
                                    assert(states[k + 1] == way[k + 1]);
                                }
                            }
                            assert forall|k: int| 0 <= k < walks@.len() implies walked_by_hooks(
                                states[k],
                                states[k + 1],
                                rebuilt_start(states[k], #[trigger] walks@[k]),
                                walks@[k].records@,
                            ) by {
                                if k < so_far.len() {
                                    assert(walks@[k] == so_far[k]);
                                    assert(states[k] == way[k]);
                                    assert(states[k + 1] == way[k + 1]);
                                }
                            }
                        }
                    } else {
                        return (Run { walks, last: Some(Step::Rebuilt(rebuilt)) }, Ghost(states));
                    }
                },
                other => {
                    return (Run { walks, last: Some(other) }, Ghost(states));
                },
            }
        }
        (Run { walks, last: None }, Ghost(states))
    }

    /// Takes the host's report on the handles that it was asked to bind.
    ///
    /// Every request is on record from now on, with what was asked for and
    /// with what the report says became of it. So the handles on record are
    /// the wanted ones, and nothing is asked for again until other handles
    /// are wanted. A raw handler that was not bound gives a bind error; a
    /// handler for processed events that was not bound gives a build error
    /// for the plugin. After this, actions may run again. Without a request
    /// to report on, nothing happens.
    pub fn finish_bind(&mut self, outcomes: &Vec<BindOutcome>) -> (report: BindReport)
        requires
            old(self)@.wf(),
        ensures
            final(self)@.wf(),
            match old(self)@.pending_binds {
                Some(plan) => {
                    &&& report.reports(plan, outcomes@)
                    &&& final(self)@ == (UiState {
                        bound: handlers_for(plan, outcomes@, plan.len()),
                        pending_binds: None,
                        delay_events: false,
                        ..old(self)@
                    })
                    &&& keys_of(final(self)@.bound) == plan
                },
                None => report.is_clean() && final(self)@ == old(self)@,
            },
    {
        match self.pending_binds.take() {
            Some(plan) => {
                proof {
                    lemma_recorded_as_asked(plan@, outcomes@, plan@.len());
                    assert(plan@.take(plan@.len() as int) =~= plan@);
                }
                let (handlers, report) = record_bindings(&plan, outcomes);
                self.event_handlers = handlers;
                self.actions.set_delay(false);
                report
            },
            None => BindReport { bind_errors: Vec::new(), build_errors: Vec::new() },
        }
    }

    /// The entry point for a processed event that came through the bound
    /// handle `window`, which `plugin_id` owns.
    ///
    /// If no rebuild is under way and no action waits, the event is delivered
    /// at once and the result is the number of plugins that got it. Otherwise
    /// `deferred`, the action that delivers the event later, is put at the
    /// back of the queue and the result is `None`.
    pub fn dispatch_event(
        &mut self,
        event: &C::Event,
        handle: ControlHandle,
        window: ControlHandle,
        plugin_id: Kind,
        deferred: C::Action,
    ) -> (delivered: Option<usize>)
        requires
            old(self)@.wf(),
        ensures
            final(self)@.wf(),
            delivered.is_some() == old(self)@.can_run_now(),
            match delivered {
                Some(n) => n == spec_event_targets(old(self)@.infos, plugin_id).len()
                    && final(self)@.delivered_from(old(self)@),
                None => final(self)@ == (UiState {
                    queue: queue_after_submit(
                        old(self)@.queue,
                        old(self)@.delay_events,
                        deferred,
                    ),
                    ..old(self)@
                }),
            },
            final(self).list() == old(self).list(),
            match delivered {
                Some(_) => exists|outs: Seq<Outbox<C::Action>>|
                    {
                        &&& #[trigger] all_taken(
                            old(self).list(),
                            spec_event_targets(old(self)@.infos, plugin_id),
                            *event,
                            handle,
                            window,
                            outs,
                        )
                        &&& final(self)@.queue == queue_after_boxes(
                            old(self)@.queue,
                            old(self)@.hooks_delayed(),
                            outs,
                            outs.len() as int,
                        )
                        &&& final(self)@.should_destroy == (old(self)@.should_destroy
                            || destroy_asked(outs, outs.len() as int))
                    },
                None => true,
            },
    {
        if self.actions.is_delayed() || self.actions.len() > 0 {
            self.actions.submit(deferred);
            None
        } else {
            Some(self.process_event(event, handle, window, plugin_id))
        }
    }

    /// The entry point for a raw event that came through the bound handle
    /// `window`, which `plugin_id` owns.
    ///
    /// If no rebuild is under way and no action waits, the event is delivered
    /// at once and the result holds the answer to the system. Otherwise
    /// `deferred`, the action that delivers the event later, is put at the
    /// back of the queue and the result is `None`: the answer comes too late
    /// for the system.
    pub fn dispatch_raw_event(
        &mut self,
        event: RawEvent,
        window: ControlHandle,
        plugin_id: Kind,
        deferred: C::Action,
    ) -> (r: Option<RawDispatch>)
        requires
            old(self)@.wf(),
        ensures
            final(self)@.wf(),
            r.is_some() == old(self)@.can_run_now(),
            match r {
                Some(dispatch) => dispatch.consistent() && dispatch.answers@.len()
                    == spec_event_targets(old(self)@.infos, plugin_id).len()
                    && final(self)@.delivered_from(old(self)@),
                None => final(self)@ == (UiState {
                    queue: queue_after_submit(
                        old(self)@.queue,
                        old(self)@.delay_events,
                        deferred,
                    ),
                    ..old(self)@
                }),
            },
            final(self).list() == old(self).list(),
            match r {
                Some(dispatch) => exists|outs: Seq<Outbox<C::Action>>|
                    {
                        &&& #[trigger] all_raw_answered(
                            old(self).list(),
                            spec_event_targets(old(self)@.infos, plugin_id),
                            event,
                            window,
                            dispatch.answers@,
                            outs,
                        )
                        &&& final(self)@.queue == queue_after_boxes(
                            old(self)@.queue,
                            old(self)@.hooks_delayed(),
                            outs,
                            outs.len() as int,
                        )
                        &&& final(self)@.should_destroy == (old(self)@.should_destroy
                            || destroy_asked(outs, outs.len() as int))
                    },
                None => true,
            },
    {
        if self.actions.is_delayed() || self.actions.len() > 0 {
            self.actions.submit(deferred);
            None
        } else {
            Some(self.process_raw_event(event, window, plugin_id))
        }
    }

    /// Delivers a processed event that came through the bound handle
    /// `window`, which `plugin_id` owns, to that plugin and to the built
    /// plugins below it. The result is the number of plugins that got it.
    ///
    /// If recursion is prevented, actions that hooks submit meanwhile count
    /// as delayed.
    pub fn process_event(
        &mut self,
        event: &C::Event,
        handle: ControlHandle,
        window: ControlHandle,
        plugin_id: Kind,
    ) -> (delivered: usize)
        requires
            old(self)@.wf(),
        ensures
            final(self)@.wf(),
            delivered == spec_event_targets(old(self)@.infos, plugin_id).len(),
            final(self)@.delivered_from(old(self)@),
            final(self).list() == old(self).list(),
            exists|outs: Seq<Outbox<C::Action>>|
                {
                    &&& #[trigger] all_taken(
                        old(self).list(),
                        spec_event_targets(old(self)@.infos, plugin_id),
                        *event,
                        handle,
                        window,
                        outs,
                    )
                    &&& final(self)@.queue == queue_after_boxes(
                        old(self)@.queue,
                        old(self)@.hooks_delayed(),
                        outs,
                        outs.len() as int,
                    )
                    &&& final(self)@.should_destroy == (old(self)@.should_destroy || destroy_asked(
                        outs,
                        outs.len() as int,
                    ))
                },
    {
        let ghost before = self@;
        let was_delayed = self.actions.is_delayed();
        if self.actions.is_recursion_prevented() {
            self.actions.set_delay(true);
        }
        let ghost delay = self@.delay_events;
        let targets = event_targets(&self.ui_list, plugin_id);
        let len = self.ui_list.len();
        proof {
            lemma_event_targets_bounded(before.infos, plugin_id, before.infos.len());
        }
        let ghost mut outs: Seq<Outbox<C::Action>> = Seq::empty();
        let mut k: usize = 0;
        while k < targets.len()
            invariant
                k <= targets@.len(),
                targets@ == spec_event_targets(before.infos, plugin_id),
                forall|j: int| 0 <= j < targets@.len() ==> (#[trigger] targets@[j]) < before.infos.len(),
                self.list() == old(self).list(),
                self@ == (UiState {
                    queue: self@.queue,
                    should_destroy: self@.should_destroy,
                    delay_events: delay,
                    ..before
                }),
                queue_extends(before.queue, self@.queue, delay),
                before.should_destroy ==> self@.should_destroy,
                outs.len() == k,
                forall|j: int|
                    0 <= j < k ==> call_ensures(
                        deliver::<C>,
                        (&self.list(), #[trigger] targets@[j], event, handle, window),
                        outs[j],
                    ),
                self@.queue == queue_after_boxes(before.queue, delay, outs, k as int),
                self@.should_destroy == (before.should_destroy || destroy_asked(outs, k as int)),
            decreases targets@.len() - k,
        {
            let ghost gathered = outs;
            let outbox = deliver(&self.ui_list, targets[k], event, handle, window);
            proof {
                lemma_queue_after_all_extends(
                    self.actions.queue(),
                    self.actions.delay_events(),
                    outbox.actions@,
                    outbox.actions@.len(),
                );
                outs = gathered.push(outbox);
                lemma_boxes_prefix(before.queue, delay, gathered, outs, k as int);
            }
            self.actions.absorb(outbox);
            proof {
                assert forall|j: int| 0 <= j < k + 1 implies call_ensures(
                    deliver::<C>,
                    (&self.list(), #[trigger] targets@[j], event, handle, window),
                    outs[j],
                ) by {
                    if j < k {
                        assert(outs[j] == gathered[j]);
                    }
                }
            }
            k = k + 1;
        }
        proof {
            assert(delay == before.hooks_delayed());
            assert(all_taken(self.list(), targets@, *event, handle, window, outs));
        }
        self.actions.set_delay(was_delayed);
        targets.len()
    }

    /// Delivers a raw event that came through the bound handle `window`,
    /// which `plugin_id` owns, to that plugin and to the built plugins below
    /// it. Every one of them gets the event; the first answer counts.
    pub fn process_raw_event(&mut self, event: RawEvent, window: ControlHandle, plugin_id: Kind) -> (r:
        RawDispatch)
        requires
            old(self)@.wf(),
        ensures
            final(self)@.wf(),
            r.consistent(),
            r.answers@.len() == spec_event_targets(old(self)@.infos, plugin_id).len(),
            final(self)@.delivered_from(old(self)@),
            final(self).list() == old(self).list(),
            exists|outs: Seq<Outbox<C::Action>>|
                {
                    &&& #[trigger] all_raw_answered(
                        old(self).list(),
                        spec_event_targets(old(self)@.infos, plugin_id),
                        event,
                        window,
                        r.answers@,
                        outs,
                    )
                    &&& final(self)@.queue == queue_after_boxes(
                        old(self)@.queue,
                        old(self)@.hooks_delayed(),
                        outs,
                        outs.len() as int,
                    )
                    &&& final(self)@.should_destroy == (old(self)@.should_destroy || destroy_asked(
                        outs,
                        outs.len() as int,
                    ))
                },
    {
        let ghost before = self@;
        let was_delayed = self.actions.is_delayed();
        if self.actions.is_recursion_prevented() {
            self.actions.set_delay(true);
        }
        let ghost delay = self@.delay_events;
        let targets = event_targets(&self.ui_list, plugin_id);
        let len = self.ui_list.len();
        proof {
            lemma_event_targets_bounded(before.infos, plugin_id, before.infos.len());
        }
        let mut result = RawDispatch::new();
        let ghost mut outs: Seq<Outbox<C::Action>> = Seq::empty();
        let mut k: usize = 0;
        while k < targets.len()
            invariant
                k <= targets@.len(),
                targets@ == spec_event_targets(before.infos, plugin_id),
                forall|j: int| 0 <= j < targets@.len() ==> (#[trigger] targets@[j]) < before.infos.len(),
                self.list() == old(self).list(),
                self@ == (UiState {
                    queue: self@.queue,
                    should_destroy: self@.should_destroy,
                    delay_events: delay,
                    ..before
                }),
                queue_extends(before.queue, self@.queue, delay),
                before.should_destroy ==> self@.should_destroy,
                outs.len() == k,
                result.consistent(),
                result.answers@.len() == k,
                forall|j: int|
                    0 <= j < k ==> call_ensures(
                        deliver_raw::<C>,
                        (&self.list(), #[trigger] targets@[j], event, window),
                        (result.answers@[j], outs[j]),
                    ),
                self@.queue == queue_after_boxes(before.queue, delay, outs, k as int),
                self@.should_destroy == (before.should_destroy || destroy_asked(outs, k as int)),
            decreases targets@.len() - k,
        {
            let ghost gathered = outs;
            let (answer, outbox) = deliver_raw(&self.ui_list, targets[k], event, window);
            proof {
                lemma_queue_after_all_extends(
                    self.actions.queue(),
                    self.actions.delay_events(),
                    outbox.actions@,
                    outbox.actions@.len(),
                );
                outs = gathered.push(outbox);
                lemma_boxes_prefix(before.queue, delay, gathered, outs, k as int);
            }
            self.actions.absorb(outbox);
            let ghost answered = result.answers@;
            result.record(answer);
            proof {
                assert forall|j: int| 0 <= j < k + 1 implies call_ensures(
                    deliver_raw::<C>,
                    (&self.list(), #[trigger] targets@[j], event, window),
                    (result.answers@[j], outs[j]),
                ) by {
                    if j < k {
                        assert(result.answers@[j] == answered[j] && outs[j] == gathered[j]);
                    }
                }
            }
            k = k + 1;
        }
        proof {
            assert(delay == before.hooks_delayed());
            assert(all_raw_answered(
                self.list(),
                targets@,
                event,
                window,
                result.answers@,
                outs,
            ));
        }
        self.actions.set_delay(was_delayed);
        result
    }

    /// Requests teardown and carries it out as far as it can be.
    ///
    /// Every handler is forgotten at once. Unless a rebuild pass is under
    /// way, every built plugin is told that it is torn down and is marked as
    /// destroyed; during a pass that is left to the next step after it.
    pub fn destroy_ui(&mut self)
        requires
            old(self)@.wf(),
        ensures
            final(self)@.wf(),
            destroyed_step(old(self)@, final(self)@),
            !old(self)@.delay_events ==> torn_by_hooks(old(self)@, final(self)@),
    {
        let ghost before = self@;
        self.actions.request_destroy();
        let mut handlers: Vec<EventHandlerData> = Vec::new();
        std::mem::swap(&mut self.event_handlers, &mut handlers);
        self.unbound.append(&mut handlers);
        proof {
            assert(self@.bound =~= Seq::empty());
        }
        if self.actions.is_delayed() {
            return ;
        }
        self.actions.set_delay(true);
        let len = self.ui_list.len();
        let ghost mut outs: Seq<Outbox<C::Action>> = Seq::empty();
        let mut ix: usize = 0;
        proof {
            assert(self@.infos =~= infos_torn_upto(before.infos, 0));
        }
        while ix < len
            invariant
                len == before.infos.len(),
                len == self@.infos.len(),
                ix <= len,
                before.plugins_wf(),
                self@.plugins_wf(),
                forall|k: Kind| is_registered(before.infos, k) == is_registered(self@.infos, k),
                self@.infos == infos_torn_upto(before.infos, ix as int),
                self@.uis.len() == before.uis.len(),
                self@.bound.len() == 0,
                self@.unbound == before.unbound + before.bound,
                queue_extends(before.queue, self@.queue, true),
                self@.delay_events,
                self@.should_destroy,
                self@.prevent_recursive_events == before.prevent_recursive_events,
                self@.rebuild_ids == before.rebuild_ids,
                self@.pending_binds == before.pending_binds,
                forall|j: int| ix <= j < len ==> self@.uis[j] == before.uis[j],
                outs.len() == ix,
                forall|j: int|
                    0 <= j < ix ==> #[trigger] torn_down(
                        before.uis,
                        self@.uis,
                        before.infos,
                        j,
                        outs[j],
                    ),
                self@.queue == queue_after_boxes(before.queue, true, outs, ix as int),
            decreases len - ix,
        {
            let info = self.ui_list.info(ix);
            let ghost uis = self@.uis;
            let ghost gathered = outs;
            let fresh: Outbox<C::Action> = Outbox::new();
            if info.state == PluginState::Built {
                let ghost mid = self@;
                let data = self.ui_list.detach(ix);
                let ghost others = self.ui_list;
                let PluginData { ui, info: _ } = data;
                let ghost told = ui;
                let (ui, outbox) = tear_down(ui, &self.ui_list, fresh);
                let ghost torn = ui;
                let ghost asked_for = outbox;
                proof {
                    assert(call_ensures(tear_down::<C>, (told, &others, fresh), (torn, asked_for)));
                    lemma_queue_after_all_extends(
                        self.actions.queue(),
                        self.actions.delay_events(),
                        outbox.actions@,
                        outbox.actions@.len(),
                    );
                    outs = gathered.push(outbox);
                }
                self.actions.absorb(outbox);
                let new_info = PluginInfo {
                    id: info.id,
                    parent_id: info.parent_id,
                    state: PluginState::Destroyed,
                };
                self.ui_list.attach(ix, PluginData { ui, info: new_info });
                proof {
                    assert(self@.infos =~= mid.infos.update(ix as int, new_info));
                    assert(mid.infos[ix as int] == before.infos[ix as int]);
                    lemma_update_keeps_wf(mid.infos, ix as int, new_info);
                    assert(others.infos() =~= infos_torn_upto(before.infos, ix as int).remove(
                        ix as int,
                    ));
                    assert(others.uis() =~= others_at(before.uis, self@.uis, ix as int));
                    assert(told == before.uis[ix as int]);
                    assert(torn == self@.uis[ix as int]);
                    assert(asks_nothing(fresh));
                    assert(outs[ix as int] == asked_for);
                    assert(torn_down(
                        before.uis,
                        self@.uis,
                        before.infos,
                        ix as int,
                        outs[ix as int],
                    ));
                }
            } else {
                proof {
                    outs = gathered.push(fresh);
                }
            }
            proof {
                lemma_boxes_prefix(before.queue, true, gathered, outs, ix as int);
                assert forall|j: int| 0 <= j < ix + 1 implies #[trigger] torn_down(
                    before.uis,
                    self@.uis,
                    before.infos,
                    j,
                    outs[j],
                ) by {
                    if j < ix {
                        assert(torn_down(before.uis, uis, before.infos, j, gathered[j]));
                        lemma_torn_down_others(before.uis, uis, self@.uis, before.infos, j, outs[j]);
                    }
                }
                assert(self@.infos =~= infos_torn_upto(before.infos, ix + 1));
            }
            ix = ix + 1;
        }
        self.actions.set_delay(false);
        proof {
            assert(self@.infos =~= before.torn_down_infos());
            assert(all_torn_down(before.uis, self@.uis, before.infos, outs));
        }
    }

    /// The built plugins, in list order.
    pub fn with_all_ui(&self) -> (r: Vec<&C>)
        ensures
            r@.len() == built_positions(self@.infos, self@.infos.len()).len(),
            forall|k: int|
                0 <= k < r@.len() ==> *(#[trigger] r@[k]) == self@.uis[built_positions(
                    self@.infos,
                    self@.infos.len(),
                )[k]],
    {
        let ghost infos = self@.infos;
        let mut all: Vec<&C> = Vec::new();
        let mut ix: usize = 0;
        while ix < self.ui_list.len()
            invariant
                infos == self@.infos,
                ix <= infos.len(),
                all@.len() == built_positions(infos, ix as nat).len(),
                forall|k: int|
                    0 <= k < all@.len() ==> *(#[trigger] all@[k]) == self@.uis[built_positions(
                        infos,
                        ix as nat,
                    )[k]],
            decreases infos.len() - ix,
        {
            if self.ui_list.info(ix).state == PluginState::Built {
                all.push(self.ui_list.ui_at(ix));
            }
            ix = ix + 1;
        }
        all
    }

    /// Calls `f` with every built plugin, in list order: with what
    /// [`Self::with_all_ui`] gives, one after the other.
    pub fn for_each_ui<F: Fn(&C)>(&self, f: F)
        requires
            forall|ui: &C| f.requires((ui,)),
        ensures
            forall|ix: int|
                0 <= ix < self@.infos.len() && (#[trigger] self@.infos[ix]).state
                    == PluginState::Built ==> f.ensures((&self@.uis[ix],), ()),
    {
        let built = self.with_all_ui();
        let ghost positions = built_positions(self@.infos, self@.infos.len());
        let mut k: usize = 0;
        while k < built.len()
            invariant
                k <= built@.len(),
                built@.len() == positions.len(),
                forall|j: int|
                    0 <= j < built@.len() ==> *(#[trigger] built@[j]) == self@.uis[positions[j]],
                forall|ui: &C| f.requires((ui,)),
                forall|j: int| 0 <= j < k ==> f.ensures((&self@.uis[#[trigger] positions[j]],), ()),
            decreases built@.len() - k,
        {
            f(built[k]);
            k = k + 1;
        }
        proof {
            assert forall|ix: int|
                0 <= ix < self@.infos.len() && (#[trigger] self@.infos[ix]).state
                    == PluginState::Built implies f.ensures((&self@.uis[ix],), ()) by {
                let at = lemma_built_position(self@.infos, self@.infos.len(), ix);
                assert(positions[at] == ix);
            }
        }
    }
}

} // verus!
