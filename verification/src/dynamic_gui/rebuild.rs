//! The rules of a rebuild, stated over the engine's bookkeeping alone.
//!
//! A rebuild pass works through a queue of plugin ids. For the id at the
//! front it walks the list once: it rebuilds the plugin with that id and then,
//! if that plugin sits under a parent, every later child of an affected
//! parent whose place among its siblings matters. Each plugin that is looked
//! at leaves a [`ScanRecord`] with what its hooks answered. The functions
//! here say what the bookkeeping is after such a record, and which records a
//! walk must leave.

use vstd::prelude::*;
use super::handle::ControlHandle;
use super::handlers::{EventHandlerData, handlers_dropped, handlers_kept};
use super::plugin::{BuildError, Kind, PluginInfo, PluginState, UiList, is_registered};

verus! {

/// What the hooks of a plugin answered when a walk reached it.
#[derive(Clone, PartialEq, Eq, Debug)]
pub enum ScanOutcome {
    /// The plugin is a child of an affected parent but its place among its
    /// siblings does not matter: it was left alone.
    Unordered,
    /// The plugin declined to be built and is dormant now.
    Dormant,
    /// The plugin was built under the parent `parent_id`; `error` is what its
    /// `build` reported, if it failed.
    Built { parent_id: Option<Kind>, error: Option<BuildError> },
}

/// One plugin that a walk looked at.
#[derive(Clone, PartialEq, Eq, Debug)]
pub struct ScanRecord {
    /// The plugin's position in the list.
    pub index: usize,
    pub plugin_id: Kind,
    pub outcome: ScanOutcome,
    /// The handles that the plugin reported before it was torn down. Their
    /// event handlers were unbound. Empty for a plugin that was not built.
    pub unbound_windows: Vec<ControlHandle>,
}

/// The bookkeeping that a walk reads and changes.
pub struct ScanState {
    pub infos: Seq<PluginInfo>,
    /// The ids that still wait for a rebuild, oldest first.
    pub rebuild_ids: Seq<Kind>,
    /// The parents under which a plugin was built during this walk.
    pub affected_parents: Seq<Kind>,
}

impl ScanOutcome {
    /// Whether the plugin was torn down and its build hooks were run.
    pub open spec fn is_rebuild(self) -> bool {
        !(self is Unordered)
    }
}

/// The entry of a plugin after its hooks answered `outcome`.
pub open spec fn info_after(info: PluginInfo, outcome: ScanOutcome) -> PluginInfo {
    match outcome {
        ScanOutcome::Unordered => info,
        ScanOutcome::Dormant => PluginInfo {
            id: info.id,
            parent_id: None,
            state: PluginState::Destroyed,
        },
        ScanOutcome::Built { parent_id, error } => PluginInfo {
            id: info.id,
            parent_id,
            state: PluginState::Built,
        },
    }
}

/// The parent to record for a plugin that named `parent` to build under: the
/// named id if a plugin is registered under it, and none otherwise.
pub open spec fn recorded_parent(infos: Seq<PluginInfo>, parent: Option<Kind>) -> Option<Kind> {
    match parent {
        Some(p) => if is_registered(infos, p) {
            Some(p)
        } else {
            None
        },
        None => None,
    }
}

/// The first `n` ids of `queue` without `id`, in their order.
pub open spec fn without_id(queue: Seq<Kind>, id: Kind, n: nat) -> Seq<Kind>
    decreases n,
{
    if n == 0 || n > queue.len() {
        Seq::empty()
    } else {
        let rest = without_id(queue, id, (n - 1) as nat);
        if queue[n - 1] == id {
            rest
        } else {
            rest.push(queue[n - 1])
        }
    }
}

/// `queue` followed by the ids of those among the first `n` entries that are
/// children of `parent` and not yet in the queue, in list order.
pub open spec fn with_children(queue: Seq<Kind>, infos: Seq<PluginInfo>, parent: Kind, n: nat) -> Seq<
    Kind,
>
    decreases n,
{
    if n == 0 || n > infos.len() {
        queue
    } else {
        let rest = with_children(queue, infos, parent, (n - 1) as nat);
        let child = infos[n - 1];
        if child.parent_id == Some(parent) && !rest.contains(child.id) {
            rest.push(child.id)
        } else {
            rest
        }
    }
}

/// The affected parents after a plugin answered `outcome`.
pub open spec fn affected_after(affected: Seq<Kind>, outcome: ScanOutcome) -> Seq<Kind> {
    match outcome {
        ScanOutcome::Built { parent_id: Some(p), error } => if affected.contains(p) {
            affected
        } else {
            affected.push(p)
        },
        _ => affected,
    }
}

/// The bookkeeping after the plugin at `record.index` answered
/// `record.outcome`.
///
/// A plugin that is left alone changes nothing. A plugin that is rebuilt
/// gets its new entry, leaves the queue, and has its children put at the back
/// of the queue.
pub open spec fn scan_step(st: ScanState, record: ScanRecord) -> ScanState {
    if record.outcome.is_rebuild() && 0 <= record.index < st.infos.len() {
        let infos = st.infos.update(
            record.index as int,
            info_after(st.infos[record.index as int], record.outcome),
        );
        ScanState {
            infos,
            rebuild_ids: with_children(
                without_id(st.rebuild_ids, record.plugin_id, st.rebuild_ids.len()),
                infos,
                record.plugin_id,
                infos.len(),
            ),
            affected_parents: affected_after(st.affected_parents, record.outcome),
        }
    } else {
        st
    }
}

/// The bookkeeping after every record of `log`, applied in order to `st`.
pub open spec fn scan_state(st: ScanState, log: Seq<ScanRecord>) -> ScanState
    decreases log.len(),
{
    if log.len() == 0 {
        st
    } else {
        scan_step(scan_state(st, log.drop_last()), log.last())
    }
}

/// Whether a walk for `target` has to look at the plugin at `ix`.
///
/// Before any parent is affected that is the plugin with the id `target`.
/// Afterwards it is every child of an affected parent.
pub open spec fn is_candidate(st: ScanState, target: Kind, ix: int) -> bool {
    0 <= ix < st.infos.len() && if st.affected_parents.len() == 0 {
        st.infos[ix].id == target
    } else {
        match st.infos[ix].parent_id {
            Some(p) => st.affected_parents.contains(p),
            None => false,
        }
    }
}

/// Whether a walk ends with the last record of `log`: a plugin was rebuilt
/// and no parent is affected.
pub open spec fn walk_stops(st: ScanState, log: Seq<ScanRecord>) -> bool {
    log.len() > 0 && log.last().outcome.is_rebuild() && scan_state(st, log).affected_parents.len()
        == 0
}

/// Whether `log` is what a walk for `target` leaves on its way over the
/// entries before `upto`.
///
/// Every record is for a plugin that had to be looked at when the walk got to
/// it, the walk had not ended before, and no plugin that had to be looked at
/// was passed over.
pub open spec fn walk_admits(st: ScanState, target: Kind, log: Seq<ScanRecord>, upto: int) -> bool
    decreases log.len(),
{
    if log.len() == 0 {
        forall|ix: int| 0 <= ix < upto ==> !is_candidate(st, target, ix)
    } else {
        let before = scan_state(st, log.drop_last());
        let record = log.last();
        &&& record.index < upto
        &&& walk_admits(st, target, log.drop_last(), record.index as int)
        &&& !walk_stops(st, log.drop_last())
        &&& is_candidate(before, target, record.index as int)
        &&& record.plugin_id == before.infos[record.index as int].id
        &&& (record.outcome is Unordered ==> before.affected_parents.len() > 0)
        &&& forall|ix: int|
            record.index < ix < upto ==> !is_candidate(scan_step(before, record), target, ix)
    }
}

/// Whether `log` is what a complete walk for `target` leaves: either the walk
/// ended with its last record, or it went over the whole list.
pub open spec fn walk_complete(st: ScanState, target: Kind, log: Seq<ScanRecord>) -> bool {
    if walk_stops(st, log) {
        walk_admits(st, target, log, log.last().index + 1)
    } else {
        walk_admits(st, target, log, st.infos.len() as int)
    }
}

/// Whether `v` holds `kind`.
pub fn contains_kind(v: &Vec<Kind>, kind: Kind) -> (r: bool)
    ensures
        r == v@.contains(kind),
{
    let mut ix: usize = 0;
    while ix < v.len()
        invariant
            ix <= v@.len(),
            forall|j: int| 0 <= j < ix ==> v@[j] != kind,
        decreases v@.len() - ix,
    {
        if v[ix] == kind {
            return true;
        }
        ix = ix + 1;
    }
    false
}

/// Takes every occurrence of `id` out of the queue.
pub fn remove_id(queue: &mut Vec<Kind>, id: Kind)
    ensures
        final(queue)@ == without_id(old(queue)@, id, old(queue)@.len()),
{
    let mut kept: Vec<Kind> = Vec::new();
    let mut ix: usize = 0;
    while ix < queue.len()
        invariant
            ix <= queue@.len(),
            kept@ == without_id(queue@, id, ix as nat),
        decreases queue@.len() - ix,
    {
        if queue[ix] != id {
            kept.push(queue[ix]);
        }
        ix = ix + 1;
    }
    *queue = kept;
}

/// Puts the children of `parent` at the back of the queue, in list order,
/// unless they are in the queue already.
pub fn enqueue_children<C>(queue: &mut Vec<Kind>, ui: &UiList<C>, parent: Kind)
    ensures
        final(queue)@ == with_children(old(queue)@, ui.infos(), parent, ui.infos().len()),
{
    let mut ix: usize = 0;
    while ix < ui.len()
        invariant
            ix <= ui.infos().len(),
            queue@ == with_children(old(queue)@, ui.infos(), parent, ix as nat),
        decreases ui.infos().len() - ix,
    {
        let child = ui.info(ix);
        if child.parent_id == Some(parent) && !contains_kind(queue, child.id) {
            queue.push(child.id);
        }
        ix = ix + 1;
    }
}

/// Notes the parent under which a plugin was just built.
pub fn note_affected(affected: &mut Vec<Kind>, outcome: &ScanOutcome)
    ensures
        final(affected)@ == affected_after(old(affected)@, *outcome),
{
    match outcome {
        ScanOutcome::Built { parent_id: Some(p), error: _ } => {
            if !contains_kind(affected, *p) {
                affected.push(*p);
            }
        },
        _ => {},
    }
}

/// Whether a walk for `target` has to look at a plugin with the entry
/// `info`, given the parents that are affected so far.
pub fn needs_look(info: PluginInfo, target: Kind, affected: &Vec<Kind>) -> (r: bool)
    ensures
        r == if affected@.len() == 0 {
            info.id == target
        } else {
            match info.parent_id {
                Some(p) => affected@.contains(p),
                None => false,
            }
        },
{
    if affected.len() == 0 {
        info.id == target
    } else {
        match info.parent_id {
            Some(p) => contains_kind(affected, p),
            None => false,
        }
    }
}

/// No id occurs twice in `ids`.
pub open spec fn no_duplicates(ids: Seq<Kind>) -> bool {
    forall|i: int, j: int| 0 <= i < j < ids.len() ==> ids[i] != ids[j]
}

/// Every id in `ids` is the id of an entry.
pub open spec fn all_registered(infos: Seq<PluginInfo>, ids: Seq<Kind>) -> bool {
    forall|k: int| 0 <= k < ids.len() ==> is_registered(infos, #[trigger] ids[k])
}

/// Whether the record at `k` of a walk that started from `start` unbinds
/// handles only for a plugin that was built when the walk reached it and
/// that was rebuilt.
pub open spec fn record_unbinds_built(start: ScanState, records: Seq<ScanRecord>, k: int) -> bool {
    let entry = scan_state(start, records.take(k)).infos[records[k].index as int];
    records[k].outcome is Unordered || entry.state != PluginState::Built
        ==> records[k].unbound_windows@.len() == 0
}

/// Whether the records of a walk that started from `start` unbind handles
/// only for plugins that were built when the walk reached them and that were
/// rebuilt.
pub open spec fn unbinds_built_only(start: ScanState, records: Seq<ScanRecord>) -> bool {
    forall|k: int| 0 <= k < records.len() ==> #[trigger] record_unbinds_built(start, records, k)
}

/// The handles that are bound after the rebuilds in `records`: each rebuild
/// unbinds the handles that its plugin gave up.
pub open spec fn bound_after(bound: Seq<EventHandlerData>, records: Seq<ScanRecord>) -> Seq<
    EventHandlerData,
>
    decreases records.len(),
{
    if records.len() == 0 {
        bound
    } else {
        let earlier = bound_after(bound, records.drop_last());
        handlers_kept(earlier, records.last().unbound_windows@, earlier.len())
    }
}

/// The forgotten handlers after the rebuilds in `records`.
pub open spec fn unbound_after(
    bound: Seq<EventHandlerData>,
    unbound: Seq<EventHandlerData>,
    records: Seq<ScanRecord>,
) -> Seq<EventHandlerData>
    decreases records.len(),
{
    if records.len() == 0 {
        unbound
    } else {
        let earlier = bound_after(bound, records.drop_last());
        unbound_after(bound, unbound, records.drop_last()) + handlers_dropped(
            earlier,
            records.last().unbound_windows@,
            earlier.len(),
        )
    }
}

/// What is in a queue after an id was taken out: everything else, once if it
/// was there once.
pub proof fn lemma_without_id(queue: Seq<Kind>, id: Kind, n: nat)
    requires
        n <= queue.len(),
    ensures
        forall|x: Kind|
            without_id(queue, id, n).contains(x) <==> x != id && queue.take(n as int).contains(x),
        no_duplicates(queue) ==> no_duplicates(without_id(queue, id, n)),
        !queue.take(n as int).contains(id) ==> without_id(queue, id, n) == queue.take(n as int),
    decreases n,
{
    if n == 0 {
        assert(queue.take(0) =~= Seq::<Kind>::empty());
    } else {
        let rest = without_id(queue, id, (n - 1) as nat);
        let result = without_id(queue, id, n);
        let shorter = queue.take(n - 1);
        let taken = queue.take(n as int);
        lemma_without_id(queue, id, (n - 1) as nat);
        assert(taken =~= shorter.push(queue[n - 1]));
        assert forall|x: Kind| result.contains(x) <==> x != id && taken.contains(x) by {
            if result.contains(x) {
                let k = choose|k: int| 0 <= k < result.len() && result[k] == x;
                if k < rest.len() {
                    assert(rest[k] == x);
                    assert(rest.contains(x));
                    let m = choose|m: int| 0 <= m < shorter.len() && shorter[m] == x;
                    assert(taken[m] == x);
                } else {
                    assert(taken[n - 1] == x);
                }
            }
            if x != id && taken.contains(x) {
                let m = choose|m: int| 0 <= m < taken.len() && taken[m] == x;
                if m < n - 1 {
                    assert(shorter[m] == x);
                    assert(rest.contains(x));
                    let k = choose|k: int| 0 <= k < rest.len() && rest[k] == x;
                    assert(result[k] == x);
                } else {
                    assert(result[rest.len() as int] == x);
                }
            }
        }
        if no_duplicates(queue) {
            assert forall|i: int, j: int| 0 <= i < j < result.len() implies result[i]
                != result[j] by {
                if j == rest.len() {
                    assert(rest[i] == result[i]);
                    assert(rest.contains(result[i]));
                    let m = choose|m: int| 0 <= m < shorter.len() && shorter[m] == result[i];
                    assert(queue[m] == result[i]);
                }
            }
        }
        if !taken.contains(id) {
            assert(taken[n - 1] == queue[n - 1]);
            assert(!shorter.contains(id)) by {
                if shorter.contains(id) {
                    let m = choose|m: int| 0 <= m < shorter.len() && shorter[m] == id;
                    assert(taken[m] == id);
                }
            }
            assert(result =~= taken);
        }
    }
}

/// Whether one of the first `n` entries has the id `id` and the parent
/// `parent`.
pub open spec fn is_child_among(infos: Seq<PluginInfo>, parent: Kind, n: nat, id: Kind) -> bool {
    exists|i: int| 0 <= i < n && #[trigger] infos[i].id == id && infos[i].parent_id == Some(parent)
}

/// What is in a queue after the children of a plugin were put into it: what
/// was there, in its order, and then every child that was not.
pub proof fn lemma_with_children(queue: Seq<Kind>, infos: Seq<PluginInfo>, parent: Kind, n: nat)
    requires
        n <= infos.len(),
    ensures
        queue.len() <= with_children(queue, infos, parent, n).len(),
        forall|k: int| 0 <= k < queue.len() ==> with_children(queue, infos, parent, n)[k] == queue[k],
        forall|x: Kind|
            queue.contains(x) ==> #[trigger] with_children(queue, infos, parent, n).contains(x),
        forall|i: int|
            0 <= i < n && (#[trigger] infos[i]).parent_id == Some(parent) ==> with_children(
                queue,
                infos,
                parent,
                n,
            ).contains(infos[i].id),
        forall|x: Kind|
            #[trigger] with_children(queue, infos, parent, n).contains(x) ==> queue.contains(x)
                || is_child_among(infos, parent, n, x),
        no_duplicates(queue) ==> no_duplicates(with_children(queue, infos, parent, n)),
    decreases n,
{
    if n == 0 {
    } else {
        let rest = with_children(queue, infos, parent, (n - 1) as nat);
        let result = with_children(queue, infos, parent, n);
        let child = infos[n - 1];
        lemma_with_children(queue, infos, parent, (n - 1) as nat);
        assert forall|x: Kind| queue.contains(x) implies #[trigger] result.contains(x) by {
            let k = choose|k: int| 0 <= k < queue.len() && queue[k] == x;
            assert(result[k] == x);
        }
        assert forall|x: Kind| rest.contains(x) implies result.contains(x) by {
            let k = choose|k: int| 0 <= k < rest.len() && rest[k] == x;
            assert(result[k] == x);
        }
        assert forall|i: int|
            0 <= i < n && (#[trigger] infos[i]).parent_id == Some(parent) implies result.contains(
            infos[i].id,
        ) by {
            if i < n - 1 {
                assert(rest.contains(infos[i].id));
            } else if !rest.contains(child.id) {
                assert(result[rest.len() as int] == child.id);
            }
        }
        assert forall|x: Kind| #[trigger] result.contains(x) implies queue.contains(x)
            || is_child_among(infos, parent, n, x) by {
            let k = choose|k: int| 0 <= k < result.len() && result[k] == x;
            if k < rest.len() {
                assert(rest[k] == x);
                assert(rest.contains(x));
                if !queue.contains(x) {
                    let i = choose|i: int|
                        0 <= i < n - 1 && #[trigger] infos[i].id == x && infos[i].parent_id
                            == Some(parent);
                    assert(infos[i].id == x);
                }
            } else {
                assert(infos[n - 1].id == x);
            }
        }
        if no_duplicates(queue) {
            assert forall|i: int, j: int| 0 <= i < j < result.len() implies result[i]
                != result[j] by {
                if j == rest.len() {
                    assert(rest[i] == result[i]);
                    assert(rest.contains(result[i]));
                }
            }
        }
    }
}

} // verus!
