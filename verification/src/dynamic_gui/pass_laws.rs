//! What holds of a whole rebuild pass, whatever the plugins answer.
//!
//! A pass is a run of walks. Each walk is for the id at the front of the
//! queue and may put more ids into the queue. The pass is over when the
//! queue is empty.

use vstd::prelude::*;
use super::plugin::{Kind, PluginInfo, ids_of, ids_unique, is_registered};
use super::rebuild::{
    ScanOutcome,
    ScanRecord,
    ScanState,
    all_registered,
    info_after,
    is_candidate,
    is_child_among,
    lemma_with_children,
    lemma_without_id,
    scan_state,
    scan_step,
    walk_admits,
    walk_complete,
    walk_stops,
    with_children,
    without_id,
};
use super::engine::{Rebuilt, rebuilt_step};
use super::laws::lemma_scan_keeps_ids;
use super::state::{UiState, index_of};

verus! {

/// One walk of a pass: the id that it was made for and the records that it
/// left.
pub struct Walk {
    pub target: Kind,
    pub records: Seq<ScanRecord>,
}

/// The bookkeeping at the start of the next walk: the id at the front has
/// left the queue and no parent is affected.
pub open spec fn walk_start(st: ScanState) -> ScanState {
    ScanState {
        infos: st.infos,
        rebuild_ids: st.rebuild_ids.drop_first(),
        affected_parents: Seq::empty(),
    }
}

/// The bookkeeping after the walks of `walks`, made one after the other from
/// `st`.
pub open spec fn pass_state(st: ScanState, walks: Seq<Walk>) -> ScanState
    decreases walks.len(),
{
    if walks.len() == 0 {
        st
    } else {
        scan_state(walk_start(pass_state(st, walks.drop_last())), walks.last().records)
    }
}

/// Whether `walks` is a run of walks that a pass can make from `st`: each
/// walk is for the id that is at the front of the queue when it starts, and
/// leaves the records that the rules of a walk call for.
pub open spec fn pass_admits(st: ScanState, walks: Seq<Walk>) -> bool
    decreases walks.len(),
{
    if walks.len() == 0 {
        true
    } else {
        let before = pass_state(st, walks.drop_last());
        &&& pass_admits(st, walks.drop_last())
        &&& before.rebuild_ids.len() > 0
        &&& walks.last().target == before.rebuild_ids[0]
        &&& walk_complete(walk_start(before), walks.last().target, walks.last().records)
    }
}

/// The records of all walks, in the order in which they were left.
pub open spec fn pass_log(walks: Seq<Walk>) -> Seq<ScanRecord>
    decreases walks.len(),
{
    if walks.len() == 0 {
        Seq::empty()
    } else {
        pass_log(walks.drop_last()) + walks.last().records
    }
}

/// The position in `log` of the last rebuild of the plugin with the id
/// `kind`, or -1 if the plugin was not rebuilt.
pub open spec fn last_rebuild(log: Seq<ScanRecord>, kind: Kind) -> int
    decreases log.len(),
{
    if log.len() == 0 {
        -1
    } else if log.last().plugin_id == kind && log.last().outcome.is_rebuild() {
        log.len() - 1
    } else {
        last_rebuild(log.drop_last(), kind)
    }
}

/// Whether the plugin with the id `kind` was rebuilt.
pub open spec fn was_rebuilt(log: Seq<ScanRecord>, kind: Kind) -> bool {
    last_rebuild(log, kind) >= 0
}

/// Whether the plugin at `e` is in step with its parent: if the parent was
/// rebuilt, then the plugin waits for a rebuild, is the one being walked for,
/// or was itself rebuilt after the parent's last rebuild.
pub open spec fn follows_parent(
    infos: Seq<PluginInfo>,
    queue: Seq<Kind>,
    log: Seq<ScanRecord>,
    exempt: Option<Kind>,
    e: int,
) -> bool {
    match infos[e].parent_id {
        Some(k) => was_rebuilt(log, k) ==> queue.contains(infos[e].id) || exempt == Some(
            infos[e].id,
        ) || last_rebuild(log, infos[e].id) > last_rebuild(log, k),
        None => true,
    }
}

/// Whether every plugin is in step with its parent.
pub open spec fn children_follow(
    infos: Seq<PluginInfo>,
    queue: Seq<Kind>,
    log: Seq<ScanRecord>,
    exempt: Option<Kind>,
) -> bool {
    forall|e: int| 0 <= e < infos.len() ==> #[trigger] follows_parent(infos, queue, log, exempt, e)
}

/// Whether the id `kind` was dealt with or is about to be: it waits for a
/// rebuild, is the one being walked for, or was rebuilt.
pub open spec fn settled(queue: Seq<Kind>, log: Seq<ScanRecord>, exempt: Option<Kind>, kind: Kind) -> bool {
    queue.contains(kind) || exempt == Some(kind) || was_rebuilt(log, kind)
}

/// The last rebuild of a plugin is a record of the log.
pub proof fn lemma_last_rebuild_in_log(log: Seq<ScanRecord>, kind: Kind)
    ensures
        -1 <= last_rebuild(log, kind) < log.len(),
        last_rebuild(log, kind) >= 0 ==> log[last_rebuild(log, kind)].plugin_id == kind
            && log[last_rebuild(log, kind)].outcome.is_rebuild(),
        forall|j: int|
            last_rebuild(log, kind) < j < log.len() ==> !((#[trigger] log[j]).plugin_id == kind
                && log[j].outcome.is_rebuild()),
    decreases log.len(),
{
    if log.len() > 0 {
        lemma_last_rebuild_in_log(log.drop_last(), kind);
        if !(log.last().plugin_id == kind && log.last().outcome.is_rebuild()) {
            let p = last_rebuild(log, kind);
            assert forall|j: int| p < j < log.len() implies !((#[trigger] log[j]).plugin_id == kind
                && log[j].outcome.is_rebuild()) by {
                if j < log.len() - 1 {
                    assert(log[j] == log.drop_last()[j]);
                }
            }
            if p >= 0 {
                assert(log[p] == log.drop_last()[p]);
            }
        }
    }
}

/// The last rebuild of each plugin after one more record.
pub proof fn lemma_last_rebuild_push(log: Seq<ScanRecord>, record: ScanRecord, kind: Kind)
    ensures
        last_rebuild(log.push(record), kind) == if record.plugin_id == kind
            && record.outcome.is_rebuild() {
            log.len() as int
        } else {
            last_rebuild(log, kind)
        },
{
    assert(log.push(record).drop_last() =~= log);
    assert(log.push(record).last() == record);
}

/// A rebuild keeps every plugin in step with its parent: the children of the
/// rebuilt plugin are put into the queue, and the rebuilt plugin comes after
/// whatever was rebuilt before.
pub proof fn lemma_rebuild_keeps_step(
    st: ScanState,
    log: Seq<ScanRecord>,
    record: ScanRecord,
    exempt: Option<Kind>,
)
    requires
        ids_unique(st.infos),
        0 <= record.index < st.infos.len(),
        record.plugin_id == st.infos[record.index as int].id,
        record.outcome.is_rebuild(),
        children_follow(st.infos, st.rebuild_ids, log, exempt),
        exempt.is_none() || exempt == Some(record.plugin_id),
    ensures
        children_follow(
            scan_step(st, record).infos,
            scan_step(st, record).rebuild_ids,
            log.push(record),
            None,
        ),
{
    let after = scan_step(st, record);
    let x = record.plugin_id;
    let ix = record.index as int;
    let trimmed = without_id(st.rebuild_ids, x, st.rebuild_ids.len());
    lemma_without_id(st.rebuild_ids, x, st.rebuild_ids.len());
    lemma_with_children(trimmed, after.infos, x, after.infos.len());
    assert(st.rebuild_ids.take(st.rebuild_ids.len() as int) =~= st.rebuild_ids);
    assert forall|e: int| 0 <= e < after.infos.len() implies #[trigger] follows_parent(
        after.infos,
        after.rebuild_ids,
        log.push(record),
        None,
        e,
    ) by {
        let id_e = after.infos[e].id;
        match after.infos[e].parent_id {
            Some(k) => {
                lemma_last_rebuild_push(log, record, k);
                lemma_last_rebuild_push(log, record, id_e);
                lemma_last_rebuild_in_log(log, k);
                lemma_last_rebuild_in_log(log, id_e);
                if was_rebuilt(log.push(record), k) {
                    if k == x {
                        let queue = with_children(trimmed, after.infos, x, after.infos.len());
                        assert(after.rebuild_ids == queue);
                        assert(after.infos[e].parent_id == Some(x));
                        assert(queue.contains(id_e));
                    } else if e == ix {
                        assert(id_e == x);
                    } else {
                        assert(after.infos[e] == st.infos[e]);
                        assert(id_e != x) by {
                            if e < ix {
                                assert(st.infos[e].id != st.infos[ix].id);
                            } else {
                                assert(st.infos[ix].id != st.infos[e].id);
                            }
                        }
                        assert(follows_parent(st.infos, st.rebuild_ids, log, exempt, e));
                        if st.rebuild_ids.contains(id_e) {
                            let queue = with_children(trimmed, after.infos, x, after.infos.len());
                            assert(after.rebuild_ids == queue);
                            assert(trimmed.contains(id_e));
                            assert(queue.contains(id_e));
                        }
                    }
                }
            },
            None => {},
        }
    }
}

/// A plugin that is looked at and left alone changes nothing about who is in
/// step with whom.
pub proof fn lemma_unordered_keeps_step(
    st: ScanState,
    log: Seq<ScanRecord>,
    record: ScanRecord,
    exempt: Option<Kind>,
)
    requires
        !record.outcome.is_rebuild(),
        children_follow(st.infos, st.rebuild_ids, log, exempt),
    ensures
        scan_step(st, record) == st,
        children_follow(st.infos, st.rebuild_ids, log.push(record), exempt),
{
    assert forall|e: int| 0 <= e < st.infos.len() implies #[trigger] follows_parent(
        st.infos,
        st.rebuild_ids,
        log.push(record),
        exempt,
        e,
    ) by {
        assert(follows_parent(st.infos, st.rebuild_ids, log, exempt, e));
        match st.infos[e].parent_id {
            Some(k) => {
                lemma_last_rebuild_push(log, record, k);
                lemma_last_rebuild_push(log, record, st.infos[e].id);
            },
            None => {},
        }
    }
}

/// Lists with the same ids in the same places agree on which ids are unique
/// and which are registered.
pub proof fn lemma_same_ids(a: Seq<PluginInfo>, b: Seq<PluginInfo>)
    requires
        ids_of(a) == ids_of(b),
    ensures
        a.len() == b.len(),
        forall|i: int| 0 <= i < a.len() ==> (#[trigger] a[i]).id == b[i].id,
        ids_unique(a) == ids_unique(b),
        forall|k: Kind| is_registered(a, k) == is_registered(b, k),
{
    assert(ids_of(a).len() == a.len());
    assert(ids_of(b).len() == b.len());
    assert forall|i: int| 0 <= i < a.len() implies (#[trigger] a[i]).id == b[i].id by {
        assert(ids_of(a)[i] == a[i].id);
        assert(ids_of(b)[i] == b[i].id);
    }
    assert forall|i: int| 0 <= i < b.len() implies (#[trigger] b[i]).id == a[i].id by {
        assert(ids_of(a)[i] == a[i].id);
        assert(ids_of(b)[i] == b[i].id);
    }
    if ids_unique(a) {
        assert forall|i: int, j: int| 0 <= i < j < b.len() implies b[i].id != b[j].id by {
            assert(a[i].id != a[j].id);
        }
    }
    if ids_unique(b) {
        assert forall|i: int, j: int| 0 <= i < j < a.len() implies a[i].id != a[j].id by {
            assert(b[i].id != b[j].id);
        }
    }
    assert forall|k: Kind| is_registered(a, k) == is_registered(b, k) by {
        if is_registered(a, k) {
            let i = choose|i: int| 0 <= i < a.len() && #[trigger] a[i].id == k;
            assert(b[i].id == k);
        }
        if is_registered(b, k) {
            let i = choose|i: int| 0 <= i < b.len() && #[trigger] b[i].id == k;
            assert(a[i].id == k);
        }
    }
}

/// A record keeps the ids in place and the waiting ids registered.
pub proof fn lemma_scan_step_keeps_registered(st: ScanState, record: ScanRecord)
    requires
        all_registered(st.infos, st.rebuild_ids),
    ensures
        ids_of(scan_step(st, record).infos) == ids_of(st.infos),
        all_registered(scan_step(st, record).infos, scan_step(st, record).rebuild_ids),
{
    let after = scan_step(st, record);
    assert(ids_of(after.infos) =~= ids_of(st.infos));
    lemma_same_ids(st.infos, after.infos);
    if record.outcome.is_rebuild() && 0 <= record.index < st.infos.len() {
        let x = record.plugin_id;
        let trimmed = without_id(st.rebuild_ids, x, st.rebuild_ids.len());
        lemma_without_id(st.rebuild_ids, x, st.rebuild_ids.len());
        lemma_with_children(trimmed, after.infos, x, after.infos.len());
        assert(st.rebuild_ids.take(st.rebuild_ids.len() as int) =~= st.rebuild_ids);
        assert forall|k: int| 0 <= k < after.rebuild_ids.len() implies is_registered(
            after.infos,
            #[trigger] after.rebuild_ids[k],
        ) by {
            let y = after.rebuild_ids[k];
            assert(after.rebuild_ids.contains(y));
            if trimmed.contains(y) {
                assert(st.rebuild_ids.contains(y));
                let m = choose|m: int| 0 <= m < st.rebuild_ids.len() && st.rebuild_ids[m] == y;
                assert(is_registered(st.infos, st.rebuild_ids[m]));
            } else {
                assert(is_child_among(after.infos, x, after.infos.len(), y));
                let i = choose|i: int|
                    0 <= i < after.infos.len() && #[trigger] after.infos[i].id == y
                        && after.infos[i].parent_id == Some(x);
                assert(is_registered(after.infos, y));
            }
        }
    }
}

/// The records of a walk keep the ids in place and the waiting ids
/// registered.
pub proof fn lemma_scan_keeps_registered(st: ScanState, log: Seq<ScanRecord>)
    requires
        all_registered(st.infos, st.rebuild_ids),
    ensures
        ids_of(scan_state(st, log).infos) == ids_of(st.infos),
        all_registered(scan_state(st, log).infos, scan_state(st, log).rebuild_ids),
    decreases log.len(),
{
    if log.len() > 0 {
        lemma_scan_keeps_registered(st, log.drop_last());
        lemma_scan_step_keeps_registered(scan_state(st, log.drop_last()), log.last());
    }
}

/// A record keeps an id settled: an id leaves the queue only when its plugin
/// is rebuilt.
pub proof fn lemma_record_keeps_settled(
    st: ScanState,
    log: Seq<ScanRecord>,
    record: ScanRecord,
    exempt: Option<Kind>,
    kind: Kind,
)
    requires
        settled(st.rebuild_ids, log, exempt, kind),
        exempt.is_none() || (record.outcome.is_rebuild() && exempt == Some(record.plugin_id)),
        0 <= record.index < st.infos.len(),
    ensures
        settled(scan_step(st, record).rebuild_ids, log.push(record), None, kind),
{
    let after = scan_step(st, record);
    lemma_last_rebuild_push(log, record, kind);
    lemma_last_rebuild_in_log(log, kind);
    if record.outcome.is_rebuild() {
        let x = record.plugin_id;
        let trimmed = without_id(st.rebuild_ids, x, st.rebuild_ids.len());
        lemma_without_id(st.rebuild_ids, x, st.rebuild_ids.len());
        lemma_with_children(trimmed, after.infos, x, after.infos.len());
        assert(st.rebuild_ids.take(st.rebuild_ids.len() as int) =~= st.rebuild_ids);
        if st.rebuild_ids.contains(kind) && kind != x {
            let queue = with_children(trimmed, after.infos, x, after.infos.len());
            assert(after.rebuild_ids == queue);
            assert(trimmed.contains(kind));
            assert(queue.contains(kind));
        }
    }
}

/// A walk for a registered id looks at at least one plugin: the one with
/// that id.
pub proof fn lemma_walk_finds_target(st: ScanState, target: Kind, records: Seq<ScanRecord>)
    requires
        st.affected_parents.len() == 0,
        is_registered(st.infos, target),
        walk_complete(st, target, records),
    ensures
        records.len() > 0,
{
    if records.len() == 0 {
        let i = choose|i: int| 0 <= i < st.infos.len() && #[trigger] st.infos[i].id == target;
        assert(is_candidate(st, target, i));
    }
}

/// What a walk keeps in order, for the records that it has left so far.
///
/// From the first record on, every plugin is in step with its parent and
/// every id that was settled stays settled. The first record of a walk is
/// the rebuild of the plugin that the walk is for.
pub proof fn lemma_walk_keeps_step(
    st: ScanState,
    target: Kind,
    records: Seq<ScanRecord>,
    log: Seq<ScanRecord>,
    upto: int,
    kind: Kind,
)
    requires
        ids_unique(st.infos),
        st.affected_parents.len() == 0,
        walk_admits(st, target, records, upto),
        children_follow(st.infos, st.rebuild_ids, log, Some(target)),
        settled(st.rebuild_ids, log, Some(target), kind),
    ensures
        ids_of(scan_state(st, records).infos) == ids_of(st.infos),
        ids_unique(scan_state(st, records).infos),
        records.len() > 0 ==> children_follow(
            scan_state(st, records).infos,
            scan_state(st, records).rebuild_ids,
            log + records,
            None,
        ) && settled(scan_state(st, records).rebuild_ids, log + records, None, kind),
    decreases records.len(),
{
    lemma_scan_keeps_ids(st, records);
    lemma_same_ids(st.infos, scan_state(st, records).infos);
    if records.len() > 0 {
        let earlier = records.drop_last();
        let record = records.last();
        let before = scan_state(st, earlier);
        lemma_walk_keeps_step(st, target, earlier, log, record.index as int, kind);
        assert((log + earlier).push(record) =~= log + records);
        if earlier.len() == 0 {
            assert(before == st);
            assert(log + earlier =~= log);
            lemma_rebuild_keeps_step(before, log, record, Some(target));
            lemma_record_keeps_settled(before, log, record, Some(target), kind);
        } else if record.outcome.is_rebuild() {
            lemma_rebuild_keeps_step(before, log + earlier, record, None);
            lemma_record_keeps_settled(before, log + earlier, record, None, kind);
        } else {
            lemma_unordered_keeps_step(before, log + earlier, record, None);
            lemma_record_keeps_settled(before, log + earlier, record, None, kind);
        }
    }
}

/// What a pass keeps in order, walk after walk: the ids stay in place and
/// unique, the waiting ids stay registered, every plugin is in step with its
/// parent, and an id that waited at the start waits or was rebuilt.
pub proof fn lemma_pass_keeps_step(st: ScanState, walks: Seq<Walk>, kind: Kind)
    requires
        ids_unique(st.infos),
        all_registered(st.infos, st.rebuild_ids),
        pass_admits(st, walks),
        st.rebuild_ids.contains(kind),
    ensures
        ids_of(pass_state(st, walks).infos) == ids_of(st.infos),
        ids_unique(pass_state(st, walks).infos),
        all_registered(pass_state(st, walks).infos, pass_state(st, walks).rebuild_ids),
        children_follow(
            pass_state(st, walks).infos,
            pass_state(st, walks).rebuild_ids,
            pass_log(walks),
            None,
        ),
        settled(pass_state(st, walks).rebuild_ids, pass_log(walks), None, kind),
    decreases walks.len(),
{
    if walks.len() == 0 {
        assert forall|e: int| 0 <= e < st.infos.len() implies #[trigger] follows_parent(
            st.infos,
            st.rebuild_ids,
            pass_log(walks),
            None,
            e,
        ) by {}
    } else {
        let earlier = walks.drop_last();
        let walk = walks.last();
        let before = pass_state(st, earlier);
        let log = pass_log(earlier);
        lemma_pass_keeps_step(st, earlier, kind);
        let start = walk_start(before);
        let target = walk.target;
        assert(before.rebuild_ids.contains(target));
        assert(is_registered(before.infos, before.rebuild_ids[0]));
        assert forall|k: int| 0 <= k < start.rebuild_ids.len() implies is_registered(
            start.infos,
            #[trigger] start.rebuild_ids[k],
        ) by {
            assert(start.rebuild_ids[k] == before.rebuild_ids[k + 1]);
        }
        assert forall|y: Kind| before.rebuild_ids.contains(y) implies y == target
            || start.rebuild_ids.contains(y) by {
            let m = choose|m: int| 0 <= m < before.rebuild_ids.len() && before.rebuild_ids[m] == y;
            if m > 0 {
                assert(start.rebuild_ids[m - 1] == y);
            }
        }
        assert forall|e: int| 0 <= e < start.infos.len() implies #[trigger] follows_parent(
            start.infos,
            start.rebuild_ids,
            log,
            Some(target),
            e,
        ) by {
            assert(follows_parent(before.infos, before.rebuild_ids, log, None, e));
        }
        lemma_walk_finds_target(start, target, walk.records);
        let upto = if walk_stops(start, walk.records) {
            walk.records.last().index + 1
        } else {
            start.infos.len() as int
        };
        lemma_walk_keeps_step(start, target, walk.records, log, upto, kind);
        lemma_scan_keeps_registered(start, walk.records);
    }
}

/// Whether the plugin at `e` sits `depth` levels below the plugin with the
/// id `ancestor`: it is that plugin, or its parent sits one level less below
/// it.
pub open spec fn descends_from(infos: Seq<PluginInfo>, e: int, ancestor: Kind, depth: nat) -> bool
    decreases depth,
{
    0 <= e < infos.len() && if depth == 0 {
        infos[e].id == ancestor
    } else {
        match infos[e].parent_id {
            Some(k) => is_registered(infos, k) && descends_from(
                infos,
                index_of(infos, k),
                ancestor,
                (depth - 1) as nat,
            ),
            None => false,
        }
    }
}

/// Rebuild completeness: when a pass is over, every plugin that asked for a
/// rebuild was rebuilt, and so was every plugin below it, however many
/// levels down. A plugin below was last rebuilt after its parent was.
pub proof fn lemma_rebuild_completeness(
    st: ScanState,
    walks: Seq<Walk>,
    ancestor: Kind,
    e: int,
    depth: nat,
)
    requires
        ids_unique(st.infos),
        all_registered(st.infos, st.rebuild_ids),
        pass_admits(st, walks),
        pass_state(st, walks).rebuild_ids.len() == 0,
        st.rebuild_ids.contains(ancestor),
        descends_from(pass_state(st, walks).infos, e, ancestor, depth),
    ensures
        was_rebuilt(pass_log(walks), ancestor),
        was_rebuilt(pass_log(walks), pass_state(st, walks).infos[e].id),
        depth > 0 ==> match pass_state(st, walks).infos[e].parent_id {
            Some(k) => was_rebuilt(pass_log(walks), k) && last_rebuild(
                pass_log(walks),
                pass_state(st, walks).infos[e].id,
            ) > last_rebuild(pass_log(walks), k),
            None => false,
        },
    decreases depth,
{
    let end = pass_state(st, walks);
    let log = pass_log(walks);
    lemma_pass_keeps_step(st, walks, ancestor);
    if depth > 0 {
        let k = end.infos[e].parent_id.unwrap();
        let p = index_of(end.infos, k);
        lemma_rebuild_completeness(st, walks, ancestor, p, (depth - 1) as nat);
        assert(end.infos[p].id == k);
        assert(follows_parent(end.infos, end.rebuild_ids, log, None, e));
    }
}

/// The records of a walk come in list order, each for a plugin of the list.
pub proof fn lemma_walk_in_list_order(st: ScanState, target: Kind, records: Seq<ScanRecord>, upto: int)
    requires
        walk_admits(st, target, records, upto),
    ensures
        scan_state(st, records).infos.len() == st.infos.len(),
        forall|j: int|
            0 <= j < records.len() ==> (#[trigger] records[j]).index < upto && records[j].index
                < st.infos.len(),
        forall|i: int, j: int|
            0 <= i < j < records.len() ==> (#[trigger] records[i]).index < (
            #[trigger] records[j]).index,
    decreases records.len(),
{
    lemma_scan_keeps_ids(st, records);
    lemma_same_ids(st.infos, scan_state(st, records).infos);
    if records.len() > 0 {
        let earlier = records.drop_last();
        let record = records.last();
        lemma_walk_in_list_order(st, target, earlier, record.index as int);
        lemma_scan_keeps_ids(st, earlier);
        lemma_same_ids(st.infos, scan_state(st, earlier).infos);
        assert forall|j: int| 0 <= j < records.len() implies (#[trigger] records[j]).index < upto
            && records[j].index < st.infos.len() by {
            if j < earlier.len() {
                assert(records[j] == earlier[j]);
            }
        }
        assert forall|i: int, j: int| 0 <= i < j < records.len() implies (
        #[trigger] records[i]).index < (#[trigger] records[j]).index by {
            assert(records[i] == earlier[i]);
            if j < earlier.len() {
                assert(records[j] == earlier[j]);
            }
        }
    }
}

/// A plugin that no record is for keeps its entry.
pub proof fn lemma_scan_leaves_others(st: ScanState, log: Seq<ScanRecord>, c: int)
    requires
        0 <= c < st.infos.len(),
        forall|j: int| 0 <= j < log.len() ==> (#[trigger] log[j]).index != c,
    ensures
        scan_state(st, log).infos.len() == st.infos.len(),
        scan_state(st, log).infos[c] == st.infos[c],
    decreases log.len(),
{
    if log.len() > 0 {
        let earlier = log.drop_last();
        assert forall|j: int| 0 <= j < earlier.len() implies (#[trigger] earlier[j]).index != c by {
            assert(earlier[j] == log[j]);
        }
        lemma_scan_leaves_others(st, earlier, c);
        assert(log.last() == log[log.len() - 1]);
    }
}

/// A parent that is affected stays affected for the rest of the walk.
pub proof fn lemma_affected_stays(st: ScanState, log: Seq<ScanRecord>, n: int, parent: Kind)
    requires
        0 <= n <= log.len(),
        scan_state(st, log.take(n)).affected_parents.contains(parent),
    ensures
        scan_state(st, log).affected_parents.contains(parent),
    decreases log.len(),
{
    if n == log.len() {
        assert(log.take(n) =~= log);
    } else {
        let earlier = log.drop_last();
        assert(earlier.take(n) =~= log.take(n));
        lemma_affected_stays(st, earlier, n, parent);
        let before = scan_state(st, earlier).affected_parents;
        let m = choose|m: int| 0 <= m < before.len() && before[m] == parent;
        let after = scan_state(st, log).affected_parents;
        assert(after[m] == parent);
    }
}

/// Order preservation within a walk: once a plugin was built under a
/// parent, the walk looks at every later plugin that was a child of that
/// parent when the walk began. Unless such a child says that its place does
/// not matter, it is rebuilt, after the plugin before it.
pub proof fn lemma_walk_reaches_later_siblings(
    st: ScanState,
    target: Kind,
    records: Seq<ScanRecord>,
    upto: int,
    j: int,
    parent: Kind,
    c: int,
) -> (later: int)
    requires
        walk_admits(st, target, records, upto),
        0 <= j < records.len(),
        records[j].outcome matches ScanOutcome::Built { parent_id: Some(p), .. } && p == parent,
        records[j].index < c < upto,
        c < st.infos.len(),
        st.infos[c].parent_id == Some(parent),
    ensures
        j < later < records.len(),
        records[later].index == c,
    decreases records.len(),
{
    let earlier = records.drop_last();
    let record = records.last();
    let before = scan_state(st, earlier);
    let after = scan_step(before, record);
    lemma_walk_in_list_order(st, target, records, upto);
    lemma_walk_in_list_order(st, target, earlier, record.index as int);
    if record.index == c && j < records.len() - 1 {
        records.len() - 1
    } else if record.index > c {
        assert(j < records.len() - 1) by {
            if j == records.len() - 1 {
                assert(records[j] == record);
            }
        }
        assert(earlier[j] == records[j]);
        lemma_walk_reaches_later_siblings(st, target, earlier, record.index as int, j, parent, c)
    } else {
        // The walk passed over `c` after the last record, so `c` was no
        // candidate then. But it was: its parent is affected.
        assert(record.index < c) by {
            if j == records.len() - 1 {
                assert(records[j] == record);
            }
        }
        assert forall|i: int| 0 <= i < earlier.len() implies (#[trigger] earlier[i]).index != c by {
            assert(earlier[i] == records[i]);
            assert(records[i].index < records[records.len() - 1].index);
        }
        lemma_scan_leaves_others(st, earlier, c);
        assert(after.infos[c] == st.infos[c]);
        assert(records.take(j + 1).drop_last() =~= records.take(j));
        assert(records.take(j + 1).last() == records[j]);
        let at_j = scan_state(st, records.take(j));
        let step_j = scan_step(at_j, records[j]);
        assert(scan_state(st, records.take(j + 1)) == step_j);
        lemma_scan_keeps_ids(st, records.take(j));
        lemma_same_ids(st.infos, at_j.infos);
        assert(records[j].index < at_j.infos.len());
        assert(step_j.affected_parents.contains(parent)) by {
            if at_j.affected_parents.contains(parent) {
            } else {
                assert(step_j.affected_parents == at_j.affected_parents.push(parent));
                assert(step_j.affected_parents[at_j.affected_parents.len() as int] == parent);
            }
        }
        lemma_affected_stays(st, records, j + 1, parent);
        assert(scan_state(st, records) == after);
        assert(is_candidate(after, target, c));
        assert(false);
        0
    }
}

/// The walks that a run of steps made.
pub open spec fn walks_of(rebuilts: Seq<Rebuilt>) -> Seq<Walk> {
    Seq::new(
        rebuilts.len(),
        |k: int| Walk { target: rebuilts[k].target, records: rebuilts[k].records@ },
    )
}

/// Whether the engine went from `states[0]` to the last of `states` by the
/// walks of one pass: the first walk starts the pass and every other walk
/// goes on with it.
pub open spec fn pass_run<C, A>(states: Seq<UiState<C, A>>, rebuilts: Seq<Rebuilt>) -> bool {
    &&& states.len() == rebuilts.len() + 1
    &&& rebuilts.len() > 0
    &&& !states[0].delay_events
    &&& forall|k: int|
        0 <= k < rebuilts.len() ==> rebuilt_step(states[k], states[k + 1], #[trigger] rebuilts[k])
    &&& forall|k: int| 1 <= k < rebuilts.len() ==> (#[trigger] states[k]).delay_events
}

/// The bookkeeping that the pass of a run of steps starts from: the
/// plugins as they are, and in the queue the ids of those that asked for a
/// rebuild.
pub open spec fn pass_start<C, A>(states: Seq<UiState<C, A>>, rebuilts: Seq<Rebuilt>) -> ScanState {
    ScanState {
        infos: states[0].infos,
        rebuild_ids: rebuilts[0].invalidated@,
        affected_parents: Seq::empty(),
    }
}

/// The walks of a run of steps are walks that a pass can make, and they lead
/// to the bookkeeping that the engine ends up with.
pub proof fn lemma_steps_form_pass<C, A>(states: Seq<UiState<C, A>>, rebuilts: Seq<Rebuilt>)
    requires
        pass_run(states, rebuilts),
    ensures
        pass_admits(pass_start(states, rebuilts), walks_of(rebuilts)),
        pass_state(pass_start(states, rebuilts), walks_of(rebuilts)).infos == states.last().infos,
        pass_state(pass_start(states, rebuilts), walks_of(rebuilts)).rebuild_ids
            == states.last().rebuild_ids,
    decreases rebuilts.len(),
{
    let start = pass_start(states, rebuilts);
    let walks = walks_of(rebuilts);
    let n = rebuilts.len() - 1;
    let rebuilt = rebuilts[n];
    assert(rebuilt_step(states[n], states[n + 1], rebuilts[n]));
    assert(walks.last() == Walk { target: rebuilt.target, records: rebuilt.records@ });
    if n == 0 {
        assert(walks.drop_last() =~= Seq::<Walk>::empty());
        assert(pass_state(start, walks.drop_last()) == start);
        let waiting = rebuilt.invalidated@;
        let begin = UiState { rebuild_ids: waiting.drop_first(), delay_events: true, ..states[0] };
        assert(begin.scan_start() == walk_start(start));
        assert(pass_admits(start, walks.drop_last()));
        assert(start.rebuild_ids.len() > 0);
        assert(walks.last().target == start.rebuild_ids[0]);
        assert(walk_complete(walk_start(start), walks.last().target, walks.last().records));
        assert(pass_admits(start, walks));
    } else {
        let shorter = states.drop_last();
        let fewer = rebuilts.drop_last();
        assert(pass_run(shorter, fewer)) by {
            assert forall|k: int| 0 <= k < fewer.len() implies rebuilt_step(
                shorter[k],
                shorter[k + 1],
                #[trigger] fewer[k],
            ) by {
                assert(rebuilt_step(states[k], states[k + 1], rebuilts[k]));
            }
            assert forall|k: int| 1 <= k < fewer.len() implies (#[trigger] shorter[k]).delay_events by {
                assert(states[k].delay_events);
            }
        }
        lemma_steps_form_pass(shorter, fewer);
        assert(pass_start(shorter, fewer) == start);
        assert(walks_of(fewer) =~= walks.drop_last());
        assert(shorter.last() == states[n]);
        assert(states[n].delay_events);
        let before = pass_state(start, walks.drop_last());
        let begin = UiState {
            rebuild_ids: states[n].rebuild_ids.drop_first(),
            delay_events: true,
            ..states[n]
        };
        assert(begin.scan_start() == walk_start(before));
        assert(pass_admits(start, walks.drop_last()));
        assert(before.rebuild_ids.len() > 0);
        assert(walks.last().target == before.rebuild_ids[0]);
        assert(walk_complete(walk_start(before), walks.last().target, walks.last().records));
        assert(pass_admits(start, walks));
    }
}

/// Rebuild completeness, for the engine: when a pass is over, every plugin
/// that asked for a rebuild was rebuilt, and so was every plugin below it. A
/// plugin below was last rebuilt after its parent was.
pub proof fn lemma_engine_rebuild_completeness<C, A>(
    states: Seq<UiState<C, A>>,
    rebuilts: Seq<Rebuilt>,
    ancestor: Kind,
    e: int,
    depth: nat,
)
    requires
        states[0].wf(),
        pass_run(states, rebuilts),
        states.last().rebuild_ids.len() == 0,
        rebuilts[0].invalidated@.contains(ancestor),
        descends_from(states.last().infos, e, ancestor, depth),
    ensures
        was_rebuilt(pass_log(walks_of(rebuilts)), ancestor),
        was_rebuilt(pass_log(walks_of(rebuilts)), states.last().infos[e].id),
        depth > 0 ==> match states.last().infos[e].parent_id {
            Some(k) => was_rebuilt(pass_log(walks_of(rebuilts)), k) && last_rebuild(
                pass_log(walks_of(rebuilts)),
                states.last().infos[e].id,
            ) > last_rebuild(pass_log(walks_of(rebuilts)), k),
            None => false,
        },
{
    let start = pass_start(states, rebuilts);
    lemma_steps_form_pass(states, rebuilts);
    assert(rebuilt_step(states[0], states[1], rebuilts[0]));
    assert(all_registered(start.infos, start.rebuild_ids));
    lemma_rebuild_completeness(start, walks_of(rebuilts), ancestor, e, depth);
}

/// The entries after the records of `log`, applied in order: each rebuild
/// gives its plugin the entry that the hooks' answers call for.
pub open spec fn replay_infos(infos: Seq<PluginInfo>, log: Seq<ScanRecord>) -> Seq<PluginInfo>
    decreases log.len(),
{
    if log.len() == 0 {
        infos
    } else {
        let earlier = replay_infos(infos, log.drop_last());
        let record = log.last();
        if record.outcome.is_rebuild() && 0 <= record.index < earlier.len() {
            earlier.update(
                record.index as int,
                info_after(earlier[record.index as int], record.outcome),
            )
        } else {
            earlier
        }
    }
}

/// Whether every record of `log` is for a plugin of the list and names it by
/// its id.
pub open spec fn records_match(infos: Seq<PluginInfo>, log: Seq<ScanRecord>) -> bool {
    forall|j: int|
        0 <= j < log.len() ==> (#[trigger] log[j]).index < infos.len() && log[j].plugin_id
            == infos[log[j].index as int].id
}

/// Whether a plugin was built under the parent `parent`.
pub open spec fn built_under(outcome: ScanOutcome, parent: Kind) -> bool {
    match outcome {
        ScanOutcome::Built { parent_id, error } => parent_id == Some(parent),
        _ => false,
    }
}

/// The entries after a walk are those that its records call for.
pub proof fn lemma_scan_infos(st: ScanState, log: Seq<ScanRecord>)
    ensures
        scan_state(st, log).infos == replay_infos(st.infos, log),
    decreases log.len(),
{
    if log.len() > 0 {
        lemma_scan_infos(st, log.drop_last());
    }
}

/// Replaying never changes the number of entries nor their ids.
pub proof fn lemma_replay_ids(infos: Seq<PluginInfo>, log: Seq<ScanRecord>)
    ensures
        replay_infos(infos, log).len() == infos.len(),
        forall|i: int| 0 <= i < infos.len() ==> (#[trigger] replay_infos(infos, log)[i]).id == infos[i].id,
    decreases log.len(),
{
    if log.len() > 0 {
        lemma_replay_ids(infos, log.drop_last());
        let earlier = replay_infos(infos, log.drop_last());
        assert forall|i: int| 0 <= i < infos.len() implies (#[trigger] replay_infos(infos, log)[i]).id
            == infos[i].id by {
            assert(earlier[i].id == infos[i].id);
        }
    }
}

/// Replaying one log after another is replaying both in a row.
pub proof fn lemma_replay_concat(infos: Seq<PluginInfo>, a: Seq<ScanRecord>, b: Seq<ScanRecord>)
    ensures
        replay_infos(infos, a + b) == replay_infos(replay_infos(infos, a), b),
    decreases b.len(),
{
    if b.len() == 0 {
        assert(a + b =~= a);
    } else {
        assert((a + b).drop_last() =~= a + b.drop_last());
        assert((a + b).last() == b.last());
        lemma_replay_concat(infos, a, b.drop_last());
    }
}

/// The entries after a pass are those that its records call for.
pub proof fn lemma_pass_infos(st: ScanState, walks: Seq<Walk>)
    ensures
        pass_state(st, walks).infos == replay_infos(st.infos, pass_log(walks)),
    decreases walks.len(),
{
    if walks.len() > 0 {
        let earlier = walks.drop_last();
        lemma_pass_infos(st, earlier);
        lemma_scan_infos(walk_start(pass_state(st, earlier)), walks.last().records);
        lemma_replay_concat(st.infos, pass_log(earlier), walks.last().records);
    }
}

/// Every record of a walk is for a plugin of the list and names it by its
/// id.
pub proof fn lemma_walk_records_match(st: ScanState, target: Kind, records: Seq<ScanRecord>, upto: int)
    requires
        walk_admits(st, target, records, upto),
    ensures
        records_match(st.infos, records),
    decreases records.len(),
{
    if records.len() > 0 {
        let earlier = records.drop_last();
        let record = records.last();
        lemma_walk_records_match(st, target, earlier, record.index as int);
        lemma_scan_keeps_ids(st, earlier);
        lemma_same_ids(st.infos, scan_state(st, earlier).infos);
        assert forall|j: int| 0 <= j < records.len() implies (#[trigger] records[j]).index
            < st.infos.len() && records[j].plugin_id == st.infos[records[j].index as int].id by {
            if j < earlier.len() {
                assert(records[j] == earlier[j]);
            } else {
                assert(records[j] == record);
                assert(scan_state(st, earlier).infos[record.index as int].id
                    == st.infos[record.index as int].id);
            }
        }
    }
}

/// Every record of a pass is for a plugin of the list and names it by its
/// id.
pub proof fn lemma_pass_records_match(st: ScanState, walks: Seq<Walk>)
    requires
        pass_admits(st, walks),
    ensures
        records_match(st.infos, pass_log(walks)),
        ids_of(pass_state(st, walks).infos) == ids_of(st.infos),
    decreases walks.len(),
{
    if walks.len() > 0 {
        let earlier = walks.drop_last();
        let walk = walks.last();
        lemma_pass_records_match(st, earlier);
        let before = pass_state(st, earlier);
        let start = walk_start(before);
        let upto = if walk_stops(start, walk.records) {
            walk.records.last().index + 1
        } else {
            start.infos.len() as int
        };
        lemma_walk_records_match(start, walk.target, walk.records, upto);
        lemma_scan_keeps_ids(start, walk.records);
        lemma_same_ids(st.infos, before.infos);
        let log = pass_log(walks);
        let first = pass_log(earlier);
        assert forall|j: int| 0 <= j < log.len() implies (#[trigger] log[j]).index < st.infos.len()
            && log[j].plugin_id == st.infos[log[j].index as int].id by {
            if j < first.len() {
                assert(log[j] == first[j]);
            } else {
                assert(log[j] == walk.records[j - first.len()]);
                assert(before.infos[log[j].index as int].id == st.infos[log[j].index as int].id);
            }
        }
    }
}

/// The entry of a plugin after a log is replayed is decided by the plugin's
/// last rebuild, if it was rebuilt, and is the entry that it had otherwise.
pub proof fn lemma_replay_decides(infos: Seq<PluginInfo>, log: Seq<ScanRecord>, b: int)
    requires
        ids_unique(infos),
        records_match(infos, log),
        0 <= b < infos.len(),
    ensures
        replay_infos(infos, log)[b] == if was_rebuilt(log, infos[b].id) {
            info_after(infos[b], log[last_rebuild(log, infos[b].id)].outcome)
        } else {
            infos[b]
        },
    decreases log.len(),
{
    lemma_replay_ids(infos, log);
    if log.len() > 0 {
        let earlier = log.drop_last();
        let record = log.last();
        assert(records_match(infos, earlier)) by {
            assert forall|j: int| 0 <= j < earlier.len() implies (#[trigger] earlier[j]).index
                < infos.len() && earlier[j].plugin_id == infos[earlier[j].index as int].id by {
                assert(earlier[j] == log[j]);
            }
        }
        lemma_replay_decides(infos, earlier, b);
        lemma_replay_ids(infos, earlier);
        lemma_last_rebuild_in_log(earlier, infos[b].id);
        assert(record == log[log.len() - 1]);
        let before = replay_infos(infos, earlier);
        if record.plugin_id == infos[b].id {
            assert(record.index == b) by {
                if record.index < b {
                    assert(infos[record.index as int].id != infos[b].id);
                } else if b < record.index {
                    assert(infos[b].id != infos[record.index as int].id);
                }
            }
            if record.outcome.is_rebuild() {
                assert(before[b].id == infos[b].id);
            } else {
                let p = last_rebuild(earlier, infos[b].id);
                if p >= 0 {
                    assert(log[p] == earlier[p]);
                }
            }
        } else {
            assert(record.index != b);
            let p = last_rebuild(earlier, infos[b].id);
            if p >= 0 {
                assert(log[p] == earlier[p]);
            }
        }
    }
}

/// A run of walks that a pass can make stays one if its last walks are left
/// out.
pub proof fn lemma_pass_prefix(st: ScanState, walks: Seq<Walk>, w: int)
    requires
        pass_admits(st, walks),
        0 <= w <= walks.len(),
    ensures
        pass_admits(st, walks.take(w)),
    decreases walks.len(),
{
    if w == walks.len() {
        assert(walks.take(w) =~= walks);
    } else {
        assert(walks.drop_last().take(w) =~= walks.take(w));
        lemma_pass_prefix(st, walks.drop_last(), w);
    }
}

/// Where the records of a walk stand in the records of the pass: behind the
/// records of the walks before it, in their order.
pub proof fn lemma_pass_log_offset(walks: Seq<Walk>, w: int, j: int)
    requires
        0 <= w < walks.len(),
        0 <= j < walks[w].records.len(),
    ensures
        pass_log(walks.take(w)).len() + j < pass_log(walks).len(),
        pass_log(walks)[pass_log(walks.take(w)).len() + j] == walks[w].records[j],
    decreases walks.len(),
{
    let earlier = walks.drop_last();
    if w == walks.len() - 1 {
        assert(walks.take(w) =~= earlier);
    } else {
        assert(earlier.take(w) =~= walks.take(w));
        assert(earlier[w] == walks[w]);
        lemma_pass_log_offset(earlier, w, j);
    }
}

/// Every record of a pass stands in one of its walks.
pub proof fn lemma_pass_log_position(walks: Seq<Walk>, q: int) -> (at: (int, int))
    requires
        0 <= q < pass_log(walks).len(),
    ensures
        0 <= at.0 < walks.len(),
        0 <= at.1 < walks[at.0].records.len(),
        q == pass_log(walks.take(at.0)).len() + at.1,
        pass_log(walks)[q] == walks[at.0].records[at.1],
    decreases walks.len(),
{
    let earlier = walks.drop_last();
    let first = pass_log(earlier);
    if q >= first.len() {
        assert(walks.take(walks.len() - 1) =~= earlier);
        (walks.len() - 1, q - first.len())
    } else {
        let at = lemma_pass_log_position(earlier, q);
        assert(earlier.take(at.0) =~= walks.take(at.0));
        assert(earlier[at.0] == walks[at.0]);
        at
    }
}

/// The records of the first walks of a pass are the first records of the
/// pass.
pub proof fn lemma_pass_log_prefix(walks: Seq<Walk>, w: int)
    requires
        0 <= w <= walks.len(),
    ensures
        pass_log(walks.take(w)).len() <= pass_log(walks).len(),
        pass_log(walks.take(w)) == pass_log(walks).take(pass_log(walks.take(w)).len() as int),
    decreases walks.len(),
{
    if w == walks.len() {
        assert(walks.take(w) =~= walks);
        assert(pass_log(walks).take(pass_log(walks).len() as int) =~= pass_log(walks));
    } else {
        let earlier = walks.drop_last();
        assert(earlier.take(w) =~= walks.take(w));
        lemma_pass_log_prefix(earlier, w);
        let part = pass_log(walks.take(w));
        assert(part =~= pass_log(walks).take(part.len() as int));
    }
}

/// Order preservation: take two plugins of which the first stands earlier
/// in the list. Let the first end up under a parent that was rebuilt during
/// the pass. Let the second be under that parent from the start and be
/// rebuilt under it whenever a walk looks at it, which takes that its place
/// among its siblings matters. Then both were rebuilt after the parent, and
/// the second was last rebuilt after the first.
pub proof fn lemma_order_preservation(
    st: ScanState,
    walks: Seq<Walk>,
    parent: Kind,
    b: int,
    c: int,
)
    requires
        ids_unique(st.infos),
        all_registered(st.infos, st.rebuild_ids),
        pass_admits(st, walks),
        pass_state(st, walks).rebuild_ids.len() == 0,
        0 <= b < c < st.infos.len(),
        was_rebuilt(pass_log(walks), parent),
        pass_state(st, walks).infos[b].parent_id == Some(parent),
        st.infos[c].parent_id == Some(parent),
        forall|q: int|
            0 <= q < pass_log(walks).len() && (#[trigger] pass_log(walks)[q]).index == c
                ==> built_under(pass_log(walks)[q].outcome, parent),
    ensures
        last_rebuild(pass_log(walks), st.infos[b].id) > last_rebuild(pass_log(walks), parent),
        last_rebuild(pass_log(walks), st.infos[c].id) > last_rebuild(
            pass_log(walks),
            st.infos[b].id,
        ),
{
    let end = pass_state(st, walks);
    let log = pass_log(walks);
    let id_b = st.infos[b].id;
    let id_c = st.infos[c].id;
    // The first plugin was rebuilt after the parent.
    if st.rebuild_ids.len() > 0 {
        lemma_pass_keeps_step(st, walks, st.rebuild_ids[0]);
    } else {
        assert(walks.len() == 0) by {
            if walks.len() > 0 {
                lemma_pass_prefix(st, walks, 1);
                assert(walks.take(1).drop_last() =~= Seq::<Walk>::empty());
            }
        }
    }
    lemma_pass_records_match(st, walks);
    lemma_same_ids(st.infos, end.infos);
    assert(follows_parent(end.infos, end.rebuild_ids, log, None, b));
    let q = last_rebuild(log, id_b);
    lemma_last_rebuild_in_log(log, id_b);
    lemma_last_rebuild_in_log(log, parent);
    // Its last rebuild put it under the parent.
    lemma_pass_infos(st, walks);
    lemma_replay_decides(st.infos, log, b);
    assert(built_under(log[q].outcome, parent));
    assert(log[q].index == b) by {
        let i = log[q].index as int;
        if i < b {
            assert(st.infos[i].id != st.infos[b].id);
        } else if b < i {
            assert(st.infos[b].id != st.infos[i].id);
        }
    }
    // That rebuild stands in some walk.
    let at = lemma_pass_log_position(walks, q);
    let w = at.0;
    let j = at.1;
    let walk = walks[w];
    let earlier = walks.take(w);
    let first = pass_log(earlier);
    lemma_pass_prefix(st, walks, w);
    lemma_pass_prefix(st, walks, w + 1);
    assert(walks.take(w + 1).drop_last() =~= earlier);
    assert(walks.take(w + 1).last() == walk);
    let before = pass_state(st, earlier);
    let start = walk_start(before);
    // When that walk began the second plugin was under the parent.
    lemma_pass_records_match(st, earlier);
    lemma_pass_infos(st, earlier);
    lemma_replay_decides(st.infos, first, c);
    lemma_pass_log_prefix(walks, w);
    lemma_last_rebuild_in_log(first, id_c);
    if was_rebuilt(first, id_c) {
        let p = last_rebuild(first, id_c);
        assert(first[p] == log[p]);
        assert(first[p].index == c) by {
            let i = first[p].index as int;
            if i < c {
                assert(st.infos[i].id != st.infos[c].id);
            } else if c < i {
                assert(st.infos[c].id != st.infos[i].id);
            }
        }
    }
    assert(start.infos[c].parent_id == Some(parent));
    // The walk did not end before it reached the second plugin.
    lemma_same_ids(st.infos, before.infos);
    assert(walk_complete(start, walk.target, walk.records));
    lemma_affected_after_built(start, walk.records, j, parent);
    lemma_affected_stays(start, walk.records, j + 1, parent);
    assert(!walk_stops(start, walk.records)) by {
        let affected = scan_state(start, walk.records).affected_parents;
        let m = choose|m: int| 0 <= m < affected.len() && affected[m] == parent;
    }
    let later = lemma_walk_reaches_later_siblings(
        start,
        walk.target,
        walk.records,
        start.infos.len() as int,
        j,
        parent,
        c,
    );
    lemma_pass_log_offset(walks, w, later);
    let r = first.len() + later;
    assert(log[r] == walk.records[later]);
    assert(built_under(log[r].outcome, parent));
    assert(log[r].plugin_id == id_c);
    lemma_last_rebuild_in_log(log, id_c);
    assert(last_rebuild(log, id_c) >= r) by {
        if last_rebuild(log, id_c) < r {
            assert(!(log[r].plugin_id == id_c && log[r].outcome.is_rebuild()));
        }
    }
}

/// A parent that a plugin was built under is affected from then on.
pub proof fn lemma_affected_after_built(st: ScanState, records: Seq<ScanRecord>, j: int, parent: Kind)
    requires
        0 <= j < records.len(),
        built_under(records[j].outcome, parent),
        records[j].index < st.infos.len(),
    ensures
        scan_state(st, records.take(j + 1)).affected_parents.contains(parent),
{
    assert(records.take(j + 1).drop_last() =~= records.take(j));
    assert(records.take(j + 1).last() == records[j]);
    let at_j = scan_state(st, records.take(j));
    let step_j = scan_step(at_j, records[j]);
    lemma_scan_keeps_ids(st, records.take(j));
    lemma_same_ids(st.infos, at_j.infos);
    if at_j.affected_parents.contains(parent) {
    } else {
        assert(step_j.affected_parents == at_j.affected_parents.push(parent));
        assert(step_j.affected_parents[at_j.affected_parents.len() as int] == parent);
    }
}

/// Order preservation, for the engine: take two plugins of which the first
/// stands earlier in the list. Let the first end up under a parent that was
/// rebuilt during the pass. Let the second be under that parent from the
/// start and be rebuilt under it whenever a walk looks at it. Then both were
/// rebuilt after the parent, and the second was last rebuilt after the
/// first.
pub proof fn lemma_engine_order_preservation<C, A>(
    states: Seq<UiState<C, A>>,
    rebuilts: Seq<Rebuilt>,
    parent: Kind,
    b: int,
    c: int,
)
    requires
        states[0].wf(),
        pass_run(states, rebuilts),
        states.last().rebuild_ids.len() == 0,
        0 <= b < c < states[0].infos.len(),
        was_rebuilt(pass_log(walks_of(rebuilts)), parent),
        states.last().infos[b].parent_id == Some(parent),
        states[0].infos[c].parent_id == Some(parent),
        forall|q: int|
            0 <= q < pass_log(walks_of(rebuilts)).len() && (#[trigger] pass_log(
                walks_of(rebuilts),
            )[q]).index == c ==> built_under(pass_log(walks_of(rebuilts))[q].outcome, parent),
    ensures
        last_rebuild(pass_log(walks_of(rebuilts)), states[0].infos[b].id) > last_rebuild(
            pass_log(walks_of(rebuilts)),
            parent,
        ),
        last_rebuild(pass_log(walks_of(rebuilts)), states[0].infos[c].id) > last_rebuild(
            pass_log(walks_of(rebuilts)),
            states[0].infos[b].id,
        ),
{
    let start = pass_start(states, rebuilts);
    lemma_steps_form_pass(states, rebuilts);
    assert(rebuilt_step(states[0], states[1], rebuilts[0]));
    assert(all_registered(start.infos, start.rebuild_ids));
    lemma_order_preservation(start, walks_of(rebuilts), parent, b, c);
}


} // verus!
