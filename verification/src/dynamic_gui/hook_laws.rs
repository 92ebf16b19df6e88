//! What follows for a rebuild pass from what the hooks of a plugin say.

use vstd::prelude::*;
use super::actions::Outbox;
use super::answers::{record_follows, walk_follows, walk_record_follows};
use super::engine::{Rebuilt, rebuilt_start, walks_follow};
use super::pass_laws::{
    built_under,
    last_rebuild,
    lemma_engine_order_preservation,
    lemma_pass_log_position,
    pass_log,
    pass_run,
    walks_of,
    was_rebuilt,
};
use super::plugin::{DynamicUiHooks, Kind, PluginInfo};
use super::rebuild::ScanRecord;
use super::state::UiState;

verus! {

/// A plugin that says that its place among its siblings matters is not left
/// alone: a walk that looks at it rebuilds it.
pub proof fn lemma_ordered_is_rebuilt<C: DynamicUiHooks>(
    before: Seq<C>,
    after: Seq<C>,
    infos: Seq<PluginInfo>,
    asked_order: bool,
    record: ScanRecord,
    out: Outbox<C::Action>,
)
    requires
        record_follows(before, after, infos, asked_order, record, out),
        forall|answer: bool| #[trigger]
            call_ensures(C::is_ordered_in_parent, (&before[record.index as int],), answer)
                ==> answer,
    ensures
        record.outcome.is_rebuild(),
{
}

/// A plugin that says that its place among its siblings does not matter and
/// that is looked at as the child of an affected parent is left alone: no
/// hook of a rebuild is called on it and nothing is unbound.
pub proof fn lemma_unordered_is_left_alone<C: DynamicUiHooks>(
    before: Seq<C>,
    after: Seq<C>,
    infos: Seq<PluginInfo>,
    record: ScanRecord,
    out: Outbox<C::Action>,
)
    requires
        record_follows(before, after, infos, true, record, out),
        forall|answer: bool| #[trigger]
            call_ensures(C::is_ordered_in_parent, (&before[record.index as int],), answer)
                ==> !answer,
    ensures
        record.outcome is Unordered,
        after[record.index as int] == before[record.index as int],
        record.unbound_windows@.len() == 0,
        out.actions@.len() == 0,
{
}

/// Order preservation, for plugins that say that their place matters: take
/// two plugins of which the first stands earlier in the list. Let the first
/// end up under a parent that was rebuilt during the pass. Let the second be
/// under that parent from the start, say that its place among its siblings
/// matters whenever it is asked, and name that parent whenever it is
/// rebuilt. Then both were rebuilt after the parent, and the second was last
/// rebuilt after the first.
pub proof fn lemma_ordered_siblings_follow<C: DynamicUiHooks>(
    states: Seq<UiState<C, C::Action>>,
    rebuilts: Seq<Rebuilt>,
    parent: Kind,
    b: int,
    c: int,
)
    requires
        states[0].wf(),
        pass_run(states, rebuilts),
        walks_follow(states, rebuilts),
        states.last().rebuild_ids.len() == 0,
        0 <= b < c < states[0].infos.len(),
        was_rebuilt(pass_log(walks_of(rebuilts)), parent),
        states.last().infos[b].parent_id == Some(parent),
        states[0].infos[c].parent_id == Some(parent),
        forall|k: int, answer: bool|
            0 <= k < rebuilts.len() && #[trigger] call_ensures(
                C::is_ordered_in_parent,
                (&states[k].uis[c],),
                answer,
            ) ==> answer,
        forall|q: int|
            0 <= q < pass_log(walks_of(rebuilts)).len() && (#[trigger] pass_log(
                walks_of(rebuilts),
            )[q]).index == c && pass_log(walks_of(rebuilts))[q].outcome.is_rebuild()
                ==> built_under(pass_log(walks_of(rebuilts))[q].outcome, parent),
    ensures
        last_rebuild(pass_log(walks_of(rebuilts)), states[0].infos[b].id) > last_rebuild(
            pass_log(walks_of(rebuilts)),
            parent,
        ),
        last_rebuild(pass_log(walks_of(rebuilts)), states[0].infos[c].id) > last_rebuild(
            pass_log(walks_of(rebuilts)),
            states[0].infos[b].id,
        ),
{
    let walks = walks_of(rebuilts);
    let log = pass_log(walks);
    assert forall|q: int| 0 <= q < log.len() && (#[trigger] log[q]).index == c implies built_under(
        log[q].outcome,
        parent,
    ) by {
        let at = lemma_pass_log_position(walks, q);
        let w = at.0;
        let j = at.1;
        assert(walks[w].records == rebuilts[w].records@);
        assert(rebuilts[w].records@[j] == log[q]);
        let outs = choose|outs: Seq<Outbox<C::Action>>| #[trigger]
            walk_follows(
                states[w].uis,
                states[w + 1].uis,
                rebuilt_start(states[w], rebuilts[w]),
                rebuilts[w].records@,
                outs,
            );
        assert(walk_record_follows(
            states[w].uis,
            states[w + 1].uis,
            rebuilt_start(states[w], rebuilts[w]),
            rebuilts[w].records@,
            j,
            outs[j],
        ));
        if log[q].outcome is Unordered {
            assert(call_ensures(C::is_ordered_in_parent, (&states[w].uis[c],), false));
        }
    }
    lemma_engine_order_preservation(states, rebuilts, parent, b, c);
}

} // verus!
