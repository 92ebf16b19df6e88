//! The engine as a plain value, and what each of its operations does to that
//! value.

use vstd::prelude::*;
use super::actions::{QueuedAction, queue_extends};
use super::handlers::{BindRequest, EventHandlerData, handlers_dropped, handlers_kept, keys_of};
use super::plugin::{
    Kind,
    PluginInfo,
    PluginState,
    ids_unique,
    is_registered,
    parents_registered,
};
use super::rebuild::{
    ScanOutcome,
    ScanRecord,
    ScanState,
    all_registered,
    bound_after,
    info_after,
    no_duplicates,
    scan_state,
    unbinds_built_only,
    unbound_after,
    walk_complete,
};

verus! {

/// Everything that the engine holds.
pub struct UiState<C, A> {
    /// The bookkeeping of every plugin, in list order.
    pub infos: Seq<PluginInfo>,
    /// The plugins themselves, in list order.
    pub uis: Seq<C>,
    /// The actions that wait for their turn, oldest first.
    pub queue: Seq<QueuedAction<A>>,
    /// `true` while new actions have to wait.
    pub delay_events: bool,
    /// `true` once teardown has been requested.
    pub should_destroy: bool,
    /// `true` if actions that a hook submits during event delivery have to
    /// wait until the delivery is over.
    pub prevent_recursive_events: bool,
    /// The handles that have event handlers bound.
    pub bound: Seq<EventHandlerData>,
    /// The handlers that the engine has forgotten and that the host still
    /// has to take off the native resources.
    pub unbound: Seq<EventHandlerData>,
    /// The ids that wait for a rebuild in the pass that is under way, oldest
    /// first.
    pub rebuild_ids: Seq<Kind>,
    /// The handles that the host was asked to bind and has not reported on.
    pub pending_binds: Option<Seq<BindRequest>>,
}

/// The entry of a plugin that was registered under `id` and never built.
pub open spec fn fresh_info(id: Kind) -> PluginInfo {
    PluginInfo { id, parent_id: None, state: PluginState::Destroyed }
}

/// The position of the plugin with the id `kind`.
pub open spec fn index_of(infos: Seq<PluginInfo>, kind: Kind) -> int {
    choose|i: int| 0 <= i < infos.len() && #[trigger] infos[i].id == kind
}

/// Whether every id in `ids` is that of a built plugin and the ids come in
/// list order.
pub open spec fn built_in_order(infos: Seq<PluginInfo>, ids: Seq<Kind>) -> bool {
    &&& forall|k: int|
        0 <= k < ids.len() ==> is_registered(infos, #[trigger] ids[k]) && infos[index_of(
            infos,
            ids[k],
        )].state == PluginState::Built
    &&& forall|k: int, l: int|
        0 <= k < l < ids.len() ==> index_of(infos, ids[k]) < index_of(infos, ids[l])
}

/// Whether every handle in `handles` is owned by a built plugin, the handles
/// of one plugin stand together, plugin after plugin in list order, and all
/// handles of one plugin agree on whether child windows get raw handlers.
pub open spec fn handles_in_order(infos: Seq<PluginInfo>, handles: Seq<BindRequest>) -> bool {
    &&& forall|k: int|
        0 <= k < handles.len() ==> is_registered(infos, (#[trigger] handles[k]).plugin_id)
            && infos[index_of(infos, handles[k].plugin_id)].state == PluginState::Built
    &&& forall|k: int, l: int|
        0 <= k < l < handles.len() ==> index_of(infos, handles[k].plugin_id) <= index_of(
            infos,
            handles[l].plugin_id,
        )
    &&& forall|k: int, l: int|
        0 <= k < l < handles.len() && handles[k].plugin_id == handles[l].plugin_id
            ==> handles[k].raw_child_events == handles[l].raw_child_events
}

/// The positions of the built plugins among the first `n`, in list order.
pub open spec fn built_positions(infos: Seq<PluginInfo>, n: nat) -> Seq<int>
    decreases n,
{
    if n == 0 || n > infos.len() {
        Seq::empty()
    } else {
        let rest = built_positions(infos, (n - 1) as nat);
        if infos[n - 1].state == PluginState::Built {
            rest.push(n - 1)
        } else {
            rest
        }
    }
}

impl<C, A> UiState<C, A> {
    /// Whether a rebuild pass is under way: ids wait for a rebuild or the
    /// host has handles to bind.
    pub open spec fn is_rebuilding(self) -> bool {
        self.rebuild_ids.len() > 0 || self.pending_binds.is_some()
    }

    /// Whether an event that arrives now is delivered at once: no rebuild is
    /// under way and no action waits.
    pub open spec fn can_run_now(self) -> bool {
        !self.delay_events && self.queue.len() == 0
    }

    /// Whether the list of plugins is in order: every id is registered once
    /// and every parent is registered.
    pub open spec fn plugins_wf(self) -> bool {
        &&& self.infos.len() == self.uis.len()
        &&& ids_unique(self.infos)
        &&& parents_registered(self.infos)
    }

    /// Whether the ids that wait for a rebuild are in order: all registered,
    /// none twice.
    pub open spec fn rebuild_ids_wf(self) -> bool {
        &&& all_registered(self.infos, self.rebuild_ids)
        &&& no_duplicates(self.rebuild_ids)
    }

    /// The invariant of the engine.
    ///
    /// Every id is registered once, parents and waiting ids are registered,
    /// no id waits twice, and new actions have to wait exactly while a
    /// rebuild pass is under way.
    pub open spec fn wf(self) -> bool {
        &&& self.plugins_wf()
        &&& self.rebuild_ids_wf()
        &&& self.delay_events == self.is_rebuilding()
        &&& (self.pending_binds.is_some() ==> self.rebuild_ids.len() == 0)
    }

    /// The bookkeeping that a walk starts from.
    pub open spec fn scan_start(self) -> ScanState {
        ScanState {
            infos: self.infos,
            rebuild_ids: self.rebuild_ids,
            affected_parents: Seq::empty(),
        }
    }

    /// Whether hooks ran between `before` and this state and nothing else
    /// happened to the queue and the flags: actions that hooks submitted are
    /// at the back of the queue, marked as the delay flag says, and a hook
    /// may have asked for teardown.
    pub open spec fn hooks_ran_since(self, before: Self) -> bool {
        &&& queue_extends(before.queue, self.queue, before.delay_events)
        &&& self.delay_events == before.delay_events
        &&& self.prevent_recursive_events == before.prevent_recursive_events
        &&& (before.should_destroy ==> self.should_destroy)
    }

    /// Whether `record` tells what a rebuild of the plugin at `ix` did to the
    /// state `before`.
    ///
    /// The plugin has the entry that its hooks' answers call for and the
    /// other entries are untouched. The handlers on the handles that the
    /// plugin gave up are forgotten. Nothing else changed but what hooks may
    /// change.
    pub open spec fn rebuilt_from(self, before: Self, ix: int, record: ScanRecord) -> bool {
        &&& record.index == ix
        &&& record.plugin_id == before.infos[ix].id
        &&& record.outcome.is_rebuild()
        &&& match record.outcome {
            ScanOutcome::Built { parent_id: Some(p), error } => is_registered(before.infos, p),
            _ => true,
        }
        &&& (before.infos[ix].state != PluginState::Built ==> record.unbound_windows@.len() == 0)
        &&& self.infos == before.infos.update(ix, info_after(before.infos[ix], record.outcome))
        &&& self.uis.len() == before.uis.len()
        &&& forall|j: int| 0 <= j < self.uis.len() && j != ix ==> self.uis[j] == before.uis[j]
        &&& self.bound == handlers_kept(before.bound, record.unbound_windows@, before.bound.len())
        &&& self.unbound == before.unbound + handlers_dropped(
            before.bound,
            record.unbound_windows@,
            before.bound.len(),
        )
        &&& self.hooks_ran_since(before)
        &&& self.rebuild_ids == before.rebuild_ids
        &&& self.pending_binds == before.pending_binds
    }

    /// Whether `records` tells what a walk for `target` did to the state
    /// `before`.
    ///
    /// The records are those that the rules of a walk call for, given what
    /// the hooks answered. The bookkeeping of the plugins and the waiting ids
    /// are what the records lead to. The handlers on the handles that rebuilt
    /// plugins gave up are forgotten.
    pub open spec fn walked_from(self, before: Self, target: Kind, records: Seq<ScanRecord>) -> bool {
        &&& walk_complete(before.scan_start(), target, records)
        &&& unbinds_built_only(before.scan_start(), records)
        &&& self.infos == scan_state(before.scan_start(), records).infos
        &&& self.rebuild_ids == scan_state(before.scan_start(), records).rebuild_ids
        &&& self.uis.len() == before.uis.len()
        &&& self.bound == bound_after(before.bound, records)
        &&& self.unbound == unbound_after(before.bound, before.unbound, records)
        &&& self.hooks_ran_since(before)
        &&& self.pending_binds == before.pending_binds
    }

    /// Whether `records` tells what building every plugin in list order did
    /// to the state `before`.
    pub open spec fn built_from(self, before: Self, records: Seq<ScanRecord>) -> bool {
        &&& records.len() == before.infos.len()
        &&& forall|i: int|
            0 <= i < records.len() ==> {
                &&& (#[trigger] records[i]).index == i
                &&& records[i].plugin_id == before.infos[i].id
                &&& records[i].outcome.is_rebuild()
                &&& match records[i].outcome {
                    ScanOutcome::Built { parent_id: Some(p), error } => is_registered(
                        before.infos,
                        p,
                    ),
                    _ => true,
                }
                &&& (before.infos[i].state != PluginState::Built
                    ==> records[i].unbound_windows@.len() == 0)
            }
        &&& self.infos == Seq::new(
            before.infos.len(),
            |i: int| info_after(before.infos[i], records[i].outcome),
        )
        &&& self.uis.len() == before.uis.len()
        &&& self.bound == bound_after(before.bound, records)
        &&& self.unbound == unbound_after(before.bound, before.unbound, records)
        &&& queue_extends(before.queue, self.queue, true)
        &&& self.delay_events == before.delay_events
        &&& self.prevent_recursive_events == before.prevent_recursive_events
        &&& (before.should_destroy ==> self.should_destroy)
        &&& self.rebuild_ids == before.rebuild_ids
        &&& self.pending_binds == before.pending_binds
    }

    /// Whether actions that hooks submit during a delivery count as delayed:
    /// a rebuild is under way or recursion is prevented.
    pub open spec fn hooks_delayed(self) -> bool {
        self.delay_events || self.prevent_recursive_events
    }

    /// Whether an event was delivered between `before` and this state and
    /// nothing else happened.
    ///
    /// Actions that hooks submitted are at the back of the queue; they count
    /// as delayed if a rebuild was under way or recursion is prevented. A
    /// hook may have asked for teardown.
    pub open spec fn delivered_from(self, before: Self) -> bool {
        &&& self == (UiState {
            queue: self.queue,
            should_destroy: self.should_destroy,
            ..before
        })
        &&& queue_extends(before.queue, self.queue, before.hooks_delayed())
        &&& (before.should_destroy ==> self.should_destroy)
    }

    /// The state after the engine has decided what to do about the handles
    /// `wanted`, which the built plugins reported.
    ///
    /// If they are the handles that are bound, nothing changes. Otherwise
    /// every handler is forgotten and the host is asked to bind `wanted`.
    pub open spec fn after_bind_check(self, wanted: Seq<BindRequest>) -> Self {
        if wanted == keys_of(self.bound) {
            self
        } else {
            UiState {
                bound: Seq::empty(),
                unbound: self.unbound + self.bound,
                pending_binds: Some(wanted),
                ..self
            }
        }
    }

    /// The state after every built plugin was torn down: each is marked as
    /// destroyed and keeps its id and its parent.
    pub open spec fn torn_down_infos(self) -> Seq<PluginInfo> {
        Seq::new(
            self.infos.len(),
            |i: int|
                PluginInfo {
                    id: self.infos[i].id,
                    parent_id: self.infos[i].parent_id,
                    state: PluginState::Destroyed,
                },
        )
    }
}

/// Every built plugin among the first `n` has its place among the built
/// positions.
pub proof fn lemma_built_position(infos: Seq<PluginInfo>, n: nat, ix: int) -> (k: int)
    requires
        n <= infos.len(),
        0 <= ix < n,
        infos[ix].state == PluginState::Built,
    ensures
        0 <= k < built_positions(infos, n).len(),
        built_positions(infos, n)[k] == ix,
    decreases n,
{
    let rest = built_positions(infos, (n - 1) as nat);
    if ix == n - 1 {
        rest.len() as int
    } else {
        let k = lemma_built_position(infos, (n - 1) as nat, ix);
        if infos[n - 1].state == PluginState::Built {
            assert(rest.push(n - 1)[k] == rest[k]);
        }
        k
    }
}

/// Where ids are unique, the position of a plugin is the one place where its
/// id stands.
pub proof fn lemma_index_of(infos: Seq<PluginInfo>, ix: int)
    requires
        ids_unique(infos),
        0 <= ix < infos.len(),
    ensures
        is_registered(infos, infos[ix].id),
        index_of(infos, infos[ix].id) == ix,
{
    let kind = infos[ix].id;
    assert(infos[ix].id == kind);
    let i = index_of(infos, kind);
    if i < ix {
        assert(infos[i].id != infos[ix].id);
    } else if ix < i {
        assert(infos[ix].id != infos[i].id);
    }
}

/// Replacing an entry by one with the same id and a registered parent keeps
/// the list of plugins in order.
pub proof fn lemma_update_keeps_wf(infos: Seq<PluginInfo>, ix: int, info: PluginInfo)
    requires
        ids_unique(infos),
        parents_registered(infos),
        0 <= ix < infos.len(),
        info.id == infos[ix].id,
        match info.parent_id {
            Some(p) => is_registered(infos, p),
            None => true,
        },
    ensures
        ids_unique(infos.update(ix, info)),
        parents_registered(infos.update(ix, info)),
        forall|k: Kind| is_registered(infos, k) == is_registered(infos.update(ix, info), k),
{
    let after = infos.update(ix, info);
    assert forall|k: Kind| is_registered(infos, k) == is_registered(after, k) by {
        if is_registered(infos, k) {
            let i = choose|i: int| 0 <= i < infos.len() && #[trigger] infos[i].id == k;
            assert(after[i].id == k);
        }
        if is_registered(after, k) {
            let i = choose|i: int| 0 <= i < after.len() && #[trigger] after[i].id == k;
            assert(infos[i].id == k);
        }
    }
    assert forall|i: int| 0 <= i < after.len() implies match (#[trigger] after[i]).parent_id {
        Some(p) => is_registered(after, p),
        None => true,
    } by {
        if i != ix {
            assert(after[i] == infos[i]);
        }
    }
}

} // verus!
