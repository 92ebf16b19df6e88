//! Decides whether a unit of work runs now or waits for a rebuild to end.

use vstd::prelude::*;
use std::collections::VecDeque;

verus! {

/// An action that waits for its turn, with a note on whether it had to wait
/// for a rebuild.
pub struct QueuedAction<A> {
    pub action: A,
    /// `true` if the action was submitted while events were delayed.
    pub delayed: bool,
}

/// An action was submitted through the entry point that never queues while
/// the interface was being rebuilt, and was dropped.
#[derive(Clone, Copy, PartialEq, Eq, Structural, Debug)]
pub struct ActionDroppedError;

/// Appends `action` to `queue`, marked with the delay flag at that moment.
pub open spec fn queue_after_submit<A>(
    queue: Seq<QueuedAction<A>>,
    delay: bool,
    action: A,
) -> Seq<QueuedAction<A>> {
    queue.push(QueuedAction { action, delayed: delay })
}

/// `queue` followed by the first `n` of `actions`, each marked with `delay`.
pub open spec fn queue_after_all<A>(
    queue: Seq<QueuedAction<A>>,
    delay: bool,
    actions: Seq<A>,
    n: nat,
) -> Seq<QueuedAction<A>>
    decreases n,
{
    if n == 0 || n > actions.len() {
        queue
    } else {
        queue_after_submit(queue_after_all(queue, delay, actions, (n - 1) as nat), delay, actions[n - 1])
    }
}

/// Whether `after` is `before` with actions appended that are all marked
/// with `delay`: nothing left the queue and nothing overtook what waited.
pub open spec fn queue_extends<A>(
    before: Seq<QueuedAction<A>>,
    after: Seq<QueuedAction<A>>,
    delay: bool,
) -> bool {
    &&& before.len() <= after.len()
    &&& forall|k: int| 0 <= k < before.len() ==> after[k] == before[k]
    &&& forall|k: int| before.len() <= k < after.len() ==> after[k].delayed == delay
}

/// Appending submitted actions extends the queue.
pub proof fn lemma_queue_after_all_extends<A>(
    queue: Seq<QueuedAction<A>>,
    delay: bool,
    actions: Seq<A>,
    n: nat,
)
    ensures
        queue_extends(queue, queue_after_all(queue, delay, actions, n), delay),
    decreases n,
{
    if n == 0 || n > actions.len() {
    } else {
        lemma_queue_after_all_extends(queue, delay, actions, (n - 1) as nat);
    }
}

/// What a hook hands to the engine: work to be done later, and possibly the
/// wish to tear everything down.
///
/// A hook runs in the middle of the engine's own work, so nothing that it
/// asks for happens at once. The engine moves the actions to its queue when
/// the hook has returned.
pub struct Outbox<A> {
    pub actions: Vec<A>,
    pub destroy: bool,
}

impl<A> Outbox<A> {
    /// An outbox that asks for nothing.
    pub fn new() -> (r: Self)
        ensures
            r.actions@ == Seq::<A>::empty(),
            !r.destroy,
    {
        Outbox { actions: Vec::new(), destroy: false }
    }

    /// Asks the engine to run `action` when it is free to.
    pub fn submit(&mut self, action: A)
        ensures
            final(self).actions@ == old(self).actions@.push(action),
            final(self).destroy == old(self).destroy,
    {
        self.actions.push(action);
    }

    /// Asks the engine to tear everything down when it next looks for work.
    pub fn request_destroy(&mut self)
        ensures
            final(self).actions@ == old(self).actions@,
            final(self).destroy,
    {
        self.destroy = true;
    }
}

/// The queue and the flags that arbitrate when actions run.
pub struct ActionQueue<A> {
    event_queue: VecDeque<QueuedAction<A>>,
    delay_events: bool,
    should_destroy: bool,
    prevent_recursive_events: bool,
}

impl<A> ActionQueue<A> {
    /// The waiting actions, oldest first.
    pub closed spec fn queue(&self) -> Seq<QueuedAction<A>> {
        self.event_queue@
    }

    /// `true` while a rebuild (or another protected section) is in progress.
    pub closed spec fn delay_events(&self) -> bool {
        self.delay_events
    }

    /// `true` once teardown has been requested.
    pub closed spec fn should_destroy(&self) -> bool {
        self.should_destroy
    }

    /// `true` if actions submitted by a hook during event delivery have to
    /// wait until the delivery is over.
    pub closed spec fn prevent_recursive_events(&self) -> bool {
        self.prevent_recursive_events
    }

    /// An empty queue with every flag cleared.
    pub fn new() -> (r: Self)
        ensures
            r.queue() == Seq::<QueuedAction<A>>::empty(),
            !r.delay_events(),
            !r.should_destroy(),
            !r.prevent_recursive_events(),
    {
        ActionQueue {
            event_queue: VecDeque::new(),
            delay_events: false,
            should_destroy: false,
            prevent_recursive_events: false,
        }
    }

    /// Whether a rebuild is in progress.
    pub fn is_delayed(&self) -> (r: bool)
        ensures
            r == self.delay_events(),
    {
        self.delay_events
    }

    /// Whether teardown has been requested.
    pub fn is_destroy_requested(&self) -> (r: bool)
        ensures
            r == self.should_destroy(),
    {
        self.should_destroy
    }

    /// Whether hooks are shielded from actions during event delivery.
    pub fn is_recursion_prevented(&self) -> (r: bool)
        ensures
            r == self.prevent_recursive_events(),
    {
        self.prevent_recursive_events
    }

    /// The number of waiting actions.
    pub fn len(&self) -> (r: usize)
        ensures
            r == self.queue().len(),
    {
        self.event_queue.len()
    }

    /// Appends an action to the queue. The result is `true` if the action has
    /// to wait for a rebuild to end, in which case it will later be handed out
    /// as a delayed one.
    pub fn submit(&mut self, action: A) -> (deferred: bool)
        ensures
            deferred == old(self).delay_events(),
            final(self).queue() == queue_after_submit(
                old(self).queue(),
                old(self).delay_events(),
                action,
            ),
            final(self).delay_events() == old(self).delay_events(),
            final(self).should_destroy() == old(self).should_destroy(),
            final(self).prevent_recursive_events() == old(self).prevent_recursive_events(),
    {
        let delayed = self.delay_events;
        self.event_queue.push_back(QueuedAction { action, delayed });
        delayed
    }

    /// Appends an action unless a rebuild is in progress; then the action is
    /// dropped and the error says so.
    pub fn submit_if_idle(&mut self, action: A) -> (r: Result<(), ActionDroppedError>)
        ensures
            r.is_err() == old(self).delay_events(),
            final(self).queue() == if old(self).delay_events() {
                old(self).queue()
            } else {
                queue_after_submit(old(self).queue(), false, action)
            },
            final(self).delay_events() == old(self).delay_events(),
            final(self).should_destroy() == old(self).should_destroy(),
            final(self).prevent_recursive_events() == old(self).prevent_recursive_events(),
    {
        if self.delay_events {
            Err(ActionDroppedError)
        } else {
            self.event_queue.push_back(QueuedAction { action, delayed: false });
            Ok(())
        }
    }

    /// Appends `immediate` if no rebuild is in progress. Otherwise appends
    /// `delayed`, if there is one, as a delayed action. The result is `true`
    /// if a rebuild was in progress.
    pub fn submit_adv(&mut self, immediate: A, delayed: Option<A>) -> (deferred: bool)
        ensures
            deferred == old(self).delay_events(),
            final(self).queue() == if !old(self).delay_events() {
                queue_after_submit(old(self).queue(), false, immediate)
            } else {
                match delayed {
                    Some(a) => queue_after_submit(old(self).queue(), true, a),
                    None => old(self).queue(),
                }
            },
            final(self).delay_events() == old(self).delay_events(),
            final(self).should_destroy() == old(self).should_destroy(),
            final(self).prevent_recursive_events() == old(self).prevent_recursive_events(),
    {
        if self.delay_events {
            match delayed {
                Some(a) => {
                    self.event_queue.push_back(QueuedAction { action: a, delayed: true });
                },
                None => {},
            }
            true
        } else {
            self.event_queue.push_back(QueuedAction { action: immediate, delayed: false });
            false
        }
    }

    /// Asks for teardown. It is carried out when the engine next looks for
    /// work, never in the middle of a rebuild.
    pub fn request_destroy(&mut self)
        ensures
            final(self).should_destroy(),
            final(self).queue() == old(self).queue(),
            final(self).delay_events() == old(self).delay_events(),
            final(self).prevent_recursive_events() == old(self).prevent_recursive_events(),
    {
        self.should_destroy = true;
    }

    /// Moves what a hook asked for into the queue, in the order in which the
    /// hook submitted it.
    pub fn absorb(&mut self, outbox: Outbox<A>)
        ensures
            final(self).queue() == queue_after_all(
                old(self).queue(),
                old(self).delay_events(),
                outbox.actions@,
                outbox.actions@.len(),
            ),
            final(self).delay_events() == old(self).delay_events(),
            final(self).should_destroy() == (old(self).should_destroy() || outbox.destroy),
            final(self).prevent_recursive_events() == old(self).prevent_recursive_events(),
    {
        let Outbox { actions, destroy } = outbox;
        let mut actions = actions;
        let ghost all = actions@;
        let ghost mut moved: nat = 0;
        while actions.len() > 0
            invariant
                moved + actions@.len() == all.len(),
                actions@ == all.subrange(moved as int, all.len() as int),
                self.queue() == queue_after_all(
                    old(self).queue(),
                    old(self).delay_events(),
                    all,
                    moved,
                ),
                self.delay_events() == old(self).delay_events(),
                self.should_destroy() == old(self).should_destroy(),
                self.prevent_recursive_events() == old(self).prevent_recursive_events(),
            decreases actions@.len(),
        {
            let action = actions.remove(0);
            let delayed = self.delay_events;
            self.event_queue.push_back(QueuedAction { action, delayed });
            proof {
                moved = moved + 1;
                assert(actions@ =~= all.subrange(moved as int, all.len() as int));
            }
        }
        if destroy {
            self.should_destroy = true;
        }
    }

    /// Takes the oldest waiting action out of the queue.
    pub(crate) fn pop(&mut self) -> (r: Option<QueuedAction<A>>)
        ensures
            old(self).queue().len() == 0 ==> r.is_none() && final(self).queue() == old(
                self,
            ).queue(),
            old(self).queue().len() > 0 ==> r == Some(old(self).queue().first())
                && final(self).queue() == old(self).queue().drop_first(),
            final(self).delay_events() == old(self).delay_events(),
            final(self).should_destroy() == old(self).should_destroy(),
            final(self).prevent_recursive_events() == old(self).prevent_recursive_events(),
    {
        let r = self.event_queue.pop_front();
        proof {
            if old(self).queue().len() > 0 {
                assert(old(self).queue().subrange(1, old(self).queue().len() as int)
                    =~= old(self).queue().drop_first());
            }
        }
        r
    }

    /// Sets or clears the delay flag.
    pub(crate) fn set_delay(&mut self, value: bool)
        ensures
            final(self).delay_events() == value,
            final(self).queue() == old(self).queue(),
            final(self).should_destroy() == old(self).should_destroy(),
            final(self).prevent_recursive_events() == old(self).prevent_recursive_events(),
    {
        self.delay_events = value;
    }

    /// Chooses whether hooks are shielded from actions during event delivery.
    pub(crate) fn set_prevent_recursive_events(&mut self, value: bool)
        ensures
            final(self).prevent_recursive_events() == value,
            final(self).queue() == old(self).queue(),
            final(self).should_destroy() == old(self).should_destroy(),
            final(self).delay_events() == old(self).delay_events(),
    {
        self.prevent_recursive_events = value;
    }
}

} // verus!
