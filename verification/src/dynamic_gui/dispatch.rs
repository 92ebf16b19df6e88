//! Which plugins an event is delivered to, and which answer to a raw event
//! counts.

use vstd::prelude::*;
use super::plugin::{Kind, PluginInfo, PluginState, UiList};

verus! {

/// The ids of the plugins at the given positions.
pub open spec fn ids_at(infos: Seq<PluginInfo>, positions: Seq<usize>) -> Seq<Kind> {
    Seq::new(positions.len(), |k: int| infos[positions[k] as int].id)
}

/// Whether a plugin with the entry `info` receives the events of a handle
/// owned by `owner`, given the ids of the plugins before it that do.
///
/// Only a built plugin receives events. The first to receive them is the
/// owner. After the owner, a plugin receives them if its parent does.
pub open spec fn receives_events(info: PluginInfo, owner: Kind, earlier: Seq<Kind>) -> bool {
    info.state == PluginState::Built && if earlier.len() == 0 {
        info.id == owner
    } else {
        match info.parent_id {
            Some(p) => earlier.contains(p),
            None => false,
        }
    }
}

/// The positions of the plugins, among the first `n`, that receive the events
/// of a handle owned by `owner`, in list order.
pub open spec fn event_targets_upto(infos: Seq<PluginInfo>, owner: Kind, n: nat) -> Seq<usize>
    decreases n,
{
    if n == 0 || n > infos.len() {
        Seq::empty()
    } else {
        let earlier = event_targets_upto(infos, owner, (n - 1) as nat);
        if receives_events(infos[n - 1], owner, ids_at(infos, earlier)) {
            earlier.push((n - 1) as usize)
        } else {
            earlier
        }
    }
}

/// The positions of all plugins that receive the events of a handle owned by
/// `owner`, in list order.
pub open spec fn spec_event_targets(infos: Seq<PluginInfo>, owner: Kind) -> Seq<usize> {
    event_targets_upto(infos, owner, infos.len())
}

/// The first answer that is not `None`.
pub open spec fn first_answer(answers: Seq<Option<isize>>) -> Option<isize>
    decreases answers.len(),
{
    if answers.len() == 0 {
        None
    } else {
        match first_answer(answers.drop_last()) {
            Some(v) => Some(v),
            None => answers.last(),
        }
    }
}

/// The number of answers that are not `None`.
pub open spec fn count_answers(answers: Seq<Option<isize>>) -> nat
    decreases answers.len(),
{
    if answers.len() == 0 {
        0
    } else {
        count_answers(answers.drop_last()) + if answers.last().is_some() {
            1nat
        } else {
            0nat
        }
    }
}

/// The number of answers that lost against an earlier one.
pub open spec fn count_conflicts(answers: Seq<Option<isize>>) -> nat {
    if count_answers(answers) == 0 {
        0
    } else {
        (count_answers(answers) - 1) as nat
    }
}

/// What the delivery of a raw event came to.
pub struct RawDispatch {
    /// The answer to the native message: the first one that a plugin gave.
    pub result: Option<isize>,
    /// The number of plugins that gave an answer after the first.
    pub conflicts: usize,
    /// The answer of every plugin that the event was delivered to, in the
    /// order of delivery.
    pub answers: Vec<Option<isize>>,
}

impl RawDispatch {
    /// Whether the result and the number of conflicts are those of the
    /// recorded answers.
    pub open spec fn consistent(&self) -> bool {
        &&& self.result == first_answer(self.answers@)
        &&& self.conflicts == count_conflicts(self.answers@)
    }

    /// A delivery that reached no plugin yet.
    pub fn new() -> (r: Self)
        ensures
            r.answers@ == Seq::<Option<isize>>::empty(),
            r.consistent(),
    {
        RawDispatch { result: None, conflicts: 0, answers: Vec::new() }
    }

    /// Takes the answer of the next plugin into account.
    pub fn record(&mut self, answer: Option<isize>)
        requires
            old(self).consistent(),
        ensures
            final(self).answers@ == old(self).answers@.push(answer),
            final(self).consistent(),
    {
        proof {
            assert(self.answers@.push(answer).drop_last() =~= self.answers@);
            lemma_count_answers_bounded(self.answers@);
        }
        let had_result = self.result.is_some();
        let asked = self.answers.len();
        if answer.is_some() {
            if had_result {
                proof {
                    lemma_first_answer_counts(self.answers@);
                }
                self.conflicts = self.conflicts + 1;
            } else {
                proof {
                    lemma_first_answer_counts(self.answers@);
                }
                self.result = answer;
            }
        }
        self.answers.push(answer);
    }
}

/// Every plugin that receives events is one of the first `n`, and they come
/// in list order.
pub proof fn lemma_event_targets_bounded(infos: Seq<PluginInfo>, owner: Kind, n: nat)
    requires
        n <= infos.len(),
        infos.len() <= usize::MAX,
    ensures
        forall|k: int|
            0 <= k < event_targets_upto(infos, owner, n).len() ==> (
            #[trigger] event_targets_upto(infos, owner, n)[k]) < n,
        forall|k: int, l: int|
            0 <= k < l < event_targets_upto(infos, owner, n).len() ==> event_targets_upto(
                infos,
                owner,
                n,
            )[k] < event_targets_upto(infos, owner, n)[l],
    decreases n,
{
    if n > 0 {
        lemma_event_targets_bounded(infos, owner, (n - 1) as nat);
        let earlier = event_targets_upto(infos, owner, (n - 1) as nat);
        let all = event_targets_upto(infos, owner, n);
        assert forall|k: int| 0 <= k < all.len() implies (#[trigger] all[k]) < n by {
            if k < earlier.len() {
                assert(all[k] == earlier[k]);
            }
        }
        assert forall|k: int, l: int| 0 <= k < l < all.len() implies all[k] < all[l] by {
            assert(all[k] == earlier[k]);
            assert(event_targets_upto(infos, owner, (n - 1) as nat)[k] < n - 1);
            if l < earlier.len() {
                assert(all[l] == earlier[l]);
            }
        }
    }
}

/// There are no more answers than plugins that were asked.
pub proof fn lemma_count_answers_bounded(answers: Seq<Option<isize>>)
    ensures
        count_answers(answers) <= answers.len(),
    decreases answers.len(),
{
    if answers.len() > 0 {
        lemma_count_answers_bounded(answers.drop_last());
    }
}

/// There is a first answer exactly if some plugin answered.
pub proof fn lemma_first_answer_counts(answers: Seq<Option<isize>>)
    ensures
        first_answer(answers).is_some() == (count_answers(answers) > 0),
    decreases answers.len(),
{
    if answers.len() > 0 {
        lemma_first_answer_counts(answers.drop_last());
    }
}

/// The positions of the plugins that receive the events of a handle owned by
/// `owner`, in list order.
pub fn event_targets<C>(ui: &UiList<C>, owner: Kind) -> (targets: Vec<usize>)
    ensures
        targets@ == spec_event_targets(ui.infos(), owner),
{
    let ghost infos = ui.infos();
    let mut targets: Vec<usize> = Vec::new();
    let mut parent_ids: Vec<Kind> = Vec::new();
    let mut ix: usize = 0;
    while ix < ui.len()
        invariant
            infos == ui.infos(),
            ix <= infos.len(),
            targets@ == event_targets_upto(infos, owner, ix as nat),
            parent_ids@ == ids_at(infos, targets@),
        decreases infos.len() - ix,
    {
        let info = ui.info(ix);
        let selected = info.state == PluginState::Built && if parent_ids.len() == 0 {
            info.id == owner
        } else {
            match info.parent_id {
                Some(p) => super::rebuild::contains_kind(&parent_ids, p),
                None => false,
            }
        };
        if selected {
            targets.push(ix);
            parent_ids.push(info.id);
            proof {
                assert(parent_ids@ =~= ids_at(infos, targets@));
            }
        }
        ix = ix + 1;
    }
    targets
}

} // verus!
