//! What the hooks of the plugins answer, and what the engine makes of it.
//!
//! The engine knows of a plugin only what its hooks return. Where a result of
//! the engine depends on such an answer, its contract says so through
//! `call_ensures`: the answer is one that the hook's own contract admits. For
//! a plugin whose hooks carry a contract this pins the engine's result down;
//! for any other plugin it says which hook was asked, with what, and how the
//! result was made of the answers.
//!
//! Every hook is called in one small function here, which hands back what
//! the hook returned and what it left in the values it could change. The
//! contracts of the engine speak of what such a function may give.

use vstd::prelude::*;
use super::actions::{Outbox, QueuedAction, queue_after_all};
use super::handle::{ControlHandle, RawEvent};
use super::handlers::BindRequest;
use super::plugin::{BuildError, DynamicUiHooks, Kind, PluginInfo, PluginState, UiList};
use super::rebuild::{
    ScanOutcome,
    ScanRecord,
    ScanState,
    info_after,
    recorded_parent,
    scan_state,
};

verus! {

/// Whether `answer` is what `need_rebuild` of `ui` may return when it is asked
/// with `list`.
pub open spec fn asked_rebuild<C: DynamicUiHooks>(ui: C, list: UiList<C>, answer: bool) -> bool {
    call_ensures(C::need_rebuild, (&ui, &list), answer)
}

/// Whether `answers` holds, for every built plugin of `list`, what its
/// `need_rebuild` may return when it is asked with `list`.
pub open spec fn all_asked_rebuild<C: DynamicUiHooks>(list: UiList<C>, answers: Seq<bool>) -> bool {
    &&& answers.len() == list.infos().len()
    &&& forall|i: int|
        0 <= i < list.infos().len() && list.infos()[i].state == PluginState::Built
            ==> #[trigger] asked_rebuild(list.uis()[i], list, answers[i])
}

/// The ids of the built plugins among the first `n` whose answer is `true`,
/// in list order.
pub open spec fn polled_upto(infos: Seq<PluginInfo>, answers: Seq<bool>, n: int) -> Seq<Kind>
    decreases n,
{
    if n <= 0 {
        Seq::empty()
    } else if infos[n - 1].state == PluginState::Built && answers[n - 1] {
        polled_upto(infos, answers, n - 1).push(infos[n - 1].id)
    } else {
        polled_upto(infos, answers, n - 1)
    }
}

/// The ids of the built plugins whose answer is `true`, in list order.
pub open spec fn polled(infos: Seq<PluginInfo>, answers: Seq<bool>) -> Seq<Kind> {
    polled_upto(infos, answers, infos.len() as int)
}

/// Only the first `n` answers count for the first `n` plugins.
pub proof fn lemma_polled_prefix(infos: Seq<PluginInfo>, a: Seq<bool>, b: Seq<bool>, n: int)
    requires
        forall|i: int| 0 <= i < n ==> a[i] == b[i],
    ensures
        polled_upto(infos, a, n) == polled_upto(infos, b, n),
    decreases n,
{
    if n > 0 {
        lemma_polled_prefix(infos, a, b, n - 1);
    }
}

/// Whether the hooks of `ui` may report these handles: `handles` may return
/// the value that `m` holds at first, `after_handles` may be called with `m`
/// and `list`, and `need_raw_events_for_children` may return `raw`. What `m`
/// holds in the end are the handles that count.
pub open spec fn hooks_report<C: DynamicUiHooks>(
    ui: C,
    list: UiList<C>,
    m: &mut Vec<ControlHandle>,
    raw: bool,
) -> bool {
    &&& call_ensures(C::handles, (&ui,), *m)
    &&& call_ensures(C::after_handles, (&ui, &list, m), ())
    &&& call_ensures(C::need_raw_events_for_children, (&ui,), raw)
}

/// Whether `answer` is what asking the plugin at `ix` of `list` for its
/// handles and for its word on child windows may give.
pub open spec fn reported<C: DynamicUiHooks>(
    list: UiList<C>,
    ix: int,
    answer: (Vec<ControlHandle>, bool),
) -> bool {
    call_ensures(reported_handles::<C>, (&list, ix as usize), answer)
}

/// Whether `answers` holds, for every built plugin of `list`, what asking it
/// for its handles and for its word on child windows may give.
pub open spec fn all_report<C: DynamicUiHooks>(
    list: UiList<C>,
    answers: Seq<(Vec<ControlHandle>, bool)>,
) -> bool {
    &&& answers.len() == list.infos().len()
    &&& forall|i: int|
        0 <= i < list.infos().len() && list.infos()[i].state == PluginState::Built
            ==> #[trigger] reported(list, i, answers[i])
}

/// One request for each of the handles, in their order, all for the plugin
/// `id` and all with the same word on child windows.
pub open spec fn requests_of(id: Kind, raw: bool, handles: Seq<ControlHandle>) -> Seq<
    BindRequest,
> {
    Seq::new(
        handles.len(),
        |k: int| (BindRequest { plugin_id: id, raw_child_events: raw, window: handles[k] }),
    )
}

/// The requests for the built plugins among the first `n`, plugin after
/// plugin in list order, where plugin `i` reported the handles and the word
/// `answers[i]`.
pub open spec fn wanted_upto(
    infos: Seq<PluginInfo>,
    answers: Seq<(Vec<ControlHandle>, bool)>,
    n: int,
) -> Seq<BindRequest>
    decreases n,
{
    if n <= 0 {
        Seq::empty()
    } else if infos[n - 1].state == PluginState::Built {
        wanted_upto(infos, answers, n - 1) + requests_of(
            infos[n - 1].id,
            answers[n - 1].1,
            answers[n - 1].0@,
        )
    } else {
        wanted_upto(infos, answers, n - 1)
    }
}

/// The requests for all built plugins, plugin after plugin in list order.
pub open spec fn wanted(infos: Seq<PluginInfo>, answers: Seq<(Vec<ControlHandle>, bool)>) -> Seq<
    BindRequest,
> {
    wanted_upto(infos, answers, infos.len() as int)
}

/// Only the first `n` reports count for the first `n` plugins.
pub proof fn lemma_wanted_prefix(
    infos: Seq<PluginInfo>,
    a: Seq<(Vec<ControlHandle>, bool)>,
    b: Seq<(Vec<ControlHandle>, bool)>,
    n: int,
)
    requires
        forall|i: int| 0 <= i < n ==> a[i] == b[i],
    ensures
        wanted_upto(infos, a, n) == wanted_upto(infos, b, n),
    decreases n,
{
    if n > 0 {
        lemma_wanted_prefix(infos, a, b, n - 1);
    }
}

/// Adds one request for each of `handles` to `all`.
pub fn push_requests(
    all: &mut Vec<BindRequest>,
    id: Kind,
    raw: bool,
    handles: &Vec<ControlHandle>,
)
    ensures
        final(all)@ == old(all)@ + requests_of(id, raw, handles@),
{
    let ghost before = all@;
    let mut h: usize = 0;
    while h < handles.len()
        invariant
            h <= handles@.len(),
            all@ == before + requests_of(id, raw, handles@).take(h as int),
        decreases handles@.len() - h,
    {
        all.push(BindRequest { plugin_id: id, raw_child_events: raw, window: handles[h] });
        proof {
            assert(all@ =~= before + requests_of(id, raw, handles@).take(h + 1));
        }
        h = h + 1;
    }
    proof {
        assert(requests_of(id, raw, handles@).take(h as int) =~= requests_of(id, raw, handles@));
    }
}

/// Asks the plugin at `ix` for its handles and for its word on child
/// windows.
pub fn reported_handles<C: DynamicUiHooks>(list: &UiList<C>, ix: usize) -> (r: (
    Vec<ControlHandle>,
    bool,
))
    requires
        ix < list.infos().len(),
    ensures
        exists|m: &mut Vec<ControlHandle>| #[trigger]
            hooks_report(list.uis()[ix as int], *list, m, r.1) && final(m)@ == r.0@,
{
    proof {
        list.lemma_one_length();
    }
    let ui = list.ui_at(ix);
    let mut handles = ui.handles();
    ui.after_handles(list, &mut handles);
    let raw = ui.need_raw_events_for_children();
    proof {
        let m = choose|m: &mut Vec<ControlHandle>|
            call_ensures(C::handles, (ui,), *m) && #[trigger] call_ensures(
                C::after_handles,
                (ui, list, m),
                (),
            ) && final(m)@ == handles@;
        assert(hooks_report(list.uis()[ix as int], *list, m, raw));
    }
    let r = (handles, raw);
    proof {
        assert(r.0 == handles && r.1 == raw);
        assert(exists|m: &mut Vec<ControlHandle>| #[trigger]
            hooks_report(list.uis()[ix as int], *list, m, r.1) && final(m)@ == r.0@);
    }
    r
}

/// Whether an outbox asks for nothing.
pub open spec fn asks_nothing<A>(outbox: Outbox<A>) -> bool {
    outbox.actions@.len() == 0 && !outbox.destroy
}

/// The queue after what the first `n` outboxes hold was put behind it, outbox
/// after outbox, each action marked with `delay`.
pub open spec fn queue_after_boxes<A>(
    queue: Seq<QueuedAction<A>>,
    delay: bool,
    outs: Seq<Outbox<A>>,
    n: int,
) -> Seq<QueuedAction<A>>
    decreases n,
{
    if n <= 0 {
        queue
    } else {
        queue_after_all(
            queue_after_boxes(queue, delay, outs, n - 1),
            delay,
            outs[n - 1].actions@,
            outs[n - 1].actions@.len(),
        )
    }
}

/// Whether one of the first `n` outboxes asks for teardown.
pub open spec fn destroy_asked<A>(outs: Seq<Outbox<A>>, n: int) -> bool
    decreases n,
{
    n > 0 && (outs[n - 1].destroy || destroy_asked(outs, n - 1))
}

/// Only the first `n` outboxes count for the first `n`.
pub proof fn lemma_boxes_prefix<A>(
    queue: Seq<QueuedAction<A>>,
    delay: bool,
    a: Seq<Outbox<A>>,
    b: Seq<Outbox<A>>,
    n: int,
)
    requires
        forall|i: int| 0 <= i < n ==> a[i] == b[i],
    ensures
        queue_after_boxes(queue, delay, a, n) == queue_after_boxes(queue, delay, b, n),
        destroy_asked(a, n) == destroy_asked(b, n),
    decreases n,
{
    if n > 0 {
        lemma_boxes_prefix(queue, delay, a, b, n - 1);
    }
}

/// Whether `dispatch_raw_event` of `ui` may give `answer` when it is called
/// with `list`, an outbox `m` that asks for nothing yet, the event and the
/// window. What `m` holds in the end is what the plugin asked for.
pub open spec fn raw_event_answered<C: DynamicUiHooks>(
    ui: C,
    list: UiList<C>,
    m: &mut Outbox<C::Action>,
    event: RawEvent,
    window: ControlHandle,
    answer: Option<isize>,
) -> bool {
    &&& asks_nothing(*m)
    &&& call_ensures(C::dispatch_raw_event, (&ui, &list, m, event, window), answer)
}

/// Whether every target was asked in turn: delivering the raw event to the
/// plugin at `targets[k]` of `list` may give the answer `answers[k]` and
/// leave what the plugin asked for in `outs[k]`.
pub open spec fn all_raw_answered<C: DynamicUiHooks>(
    list: UiList<C>,
    targets: Seq<usize>,
    event: RawEvent,
    window: ControlHandle,
    answers: Seq<Option<isize>>,
    outs: Seq<Outbox<C::Action>>,
) -> bool {
    &&& answers.len() == targets.len()
    &&& outs.len() == targets.len()
    &&& forall|k: int|
        0 <= k < targets.len() ==> call_ensures(
            deliver_raw::<C>,
            (&list, #[trigger] targets[k], event, window),
            (answers[k], outs[k]),
        )
}

/// Whether the hooks of `ui` may take the event: `dispatch_event` may be
/// called with it, and then `after_dispatch` with `list` and an outbox `m`
/// that asks for nothing yet. What `m` holds in the end is what the plugin
/// asked for.
pub open spec fn event_taken<C: DynamicUiHooks>(
    ui: C,
    list: UiList<C>,
    m: &mut Outbox<C::Action>,
    event: C::Event,
    handle: ControlHandle,
    window: ControlHandle,
) -> bool {
    &&& asks_nothing(*m)
    &&& call_ensures(C::dispatch_event, (&ui, &event, handle), ())
    &&& call_ensures(C::after_dispatch, (&ui, &list, m, &event, handle, window), ())
}

/// Whether every target took the event in turn: delivering it to the plugin
/// at `targets[k]` of `list` may leave what the plugin asked for in
/// `outs[k]`.
pub open spec fn all_taken<C: DynamicUiHooks>(
    list: UiList<C>,
    targets: Seq<usize>,
    event: C::Event,
    handle: ControlHandle,
    window: ControlHandle,
    outs: Seq<Outbox<C::Action>>,
) -> bool {
    &&& outs.len() == targets.len()
    &&& forall|k: int|
        0 <= k < targets.len() ==> call_ensures(
            deliver::<C>,
            (&list, #[trigger] targets[k], &event, handle, window),
            outs[k],
        )
}

/// Delivers a raw event to the plugin at `ix`. The result is its answer and
/// what it asked for.
pub fn deliver_raw<C: DynamicUiHooks>(
    list: &UiList<C>,
    ix: usize,
    event: RawEvent,
    window: ControlHandle,
) -> (r: (Option<isize>, Outbox<C::Action>))
    requires
        ix < list.infos().len(),
    ensures
        exists|m: &mut Outbox<C::Action>| #[trigger]
            raw_event_answered(list.uis()[ix as int], *list, m, event, window, r.0) && *final(m)
                == r.1,
{
    proof {
        list.lemma_one_length();
    }
    let ui = list.ui_at(ix);
    let mut outbox = Outbox::new();
    let ghost fresh = outbox;
    let answer = ui.dispatch_raw_event(list, &mut outbox, event, window);
    proof {
        let m = choose|m: &mut Outbox<C::Action>|
            *m == fresh && #[trigger] call_ensures(
                C::dispatch_raw_event,
                (ui, list, m, event, window),
                answer,
            ) && *final(m) == outbox;
        assert(raw_event_answered(list.uis()[ix as int], *list, m, event, window, answer));
    }
    let r = (answer, outbox);
    proof {
        assert(r.0 == answer && r.1 == outbox);
        assert(exists|m: &mut Outbox<C::Action>| #[trigger]
            raw_event_answered(list.uis()[ix as int], *list, m, event, window, r.0) && *final(m)
                == r.1);
    }
    r
}

/// Delivers a processed event to the plugin at `ix`. The result is what the
/// plugin asked for.
pub fn deliver<C: DynamicUiHooks>(
    list: &UiList<C>,
    ix: usize,
    event: &C::Event,
    handle: ControlHandle,
    window: ControlHandle,
) -> (r: Outbox<C::Action>)
    requires
        ix < list.infos().len(),
    ensures
        exists|m: &mut Outbox<C::Action>| #[trigger]
            event_taken(list.uis()[ix as int], *list, m, *event, handle, window) && *final(m) == r,
{
    proof {
        list.lemma_one_length();
    }
    let ui = list.ui_at(ix);
    ui.dispatch_event(event, handle);
    let mut outbox = Outbox::new();
    let ghost fresh = outbox;
    ui.after_dispatch(list, &mut outbox, event, handle, window);
    proof {
        let m = choose|m: &mut Outbox<C::Action>|
            *m == fresh && #[trigger] call_ensures(
                C::after_dispatch,
                (ui, list, m, event, handle, window),
                (),
            ) && *final(m) == outbox;
        assert(event_taken(list.uis()[ix as int], *list, m, *event, handle, window));
    }
    outbox
}

/// Asks a plugin for the handles that it is about to give up.
pub fn given_up<C: DynamicUiHooks>(ui: &C, list: &UiList<C>) -> (r: Vec<ControlHandle>)
    ensures
        exists|m: &mut Vec<ControlHandle>|
            call_ensures(C::handles, (ui,), *m) && #[trigger] call_ensures(
                C::after_handles,
                (ui, list, m),
                (),
            ) && *final(m) == r,
{
    let mut handles = ui.handles();
    ui.after_handles(list, &mut handles);
    handles
}

/// Tells a built plugin that it is torn down. The result is the plugin and
/// the outbox as the hook left them.
pub fn tear_down<C: DynamicUiHooks>(ui: C, list: &UiList<C>, outbox: Outbox<C::Action>) -> (r: (
    C,
    Outbox<C::Action>,
))
    ensures
        exists|s: &mut C, o: &mut Outbox<C::Action>|
            {
                &&& *s == ui
                &&& *o == outbox
                &&& #[trigger] call_ensures(C::before_rebuild, (s, list, o), ())
                &&& *final(s) == r.0
                &&& *final(o) == r.1
            },
{
    let mut ui = ui;
    let mut outbox = outbox;
    ui.before_rebuild(list, &mut outbox);
    let r = (ui, outbox);
    proof {
        assert(r.0 == ui && r.1 == outbox);
    }
    r
}

/// Asks a plugin whether and where it wants to be built. The hook is called
/// with the question still open. The result is the plugin and the outbox as
/// the hook left them, whether the plugin is to be built, and the parent that
/// the hook named.
pub fn prepare<C: DynamicUiHooks>(ui: C, list: &UiList<C>, outbox: Outbox<C::Action>) -> (r: (
    C,
    Outbox<C::Action>,
    bool,
    Option<(ControlHandle, Kind)>,
))
    ensures
        exists|s: &mut C, o: &mut Outbox<C::Action>, b: &mut bool|
            {
                &&& *s == ui
                &&& *o == outbox
                &&& *b
                &&& #[trigger] call_ensures(C::before_build, (s, list, o, b), r.3)
                &&& *final(s) == r.0
                &&& *final(o) == r.1
                &&& *final(b) == r.2
            },
{
    let mut ui = ui;
    let mut outbox = outbox;
    let mut should_build = true;
    let parent = ui.before_build(list, &mut outbox, &mut should_build);
    let r = (ui, outbox, should_build, parent);
    proof {
        assert(r.0 == ui && r.1 == outbox && r.2 == should_build && r.3 == parent);
    }
    r
}

/// Has a plugin construct its native resources under `parent`. The result is
/// the plugin as the hook left it and what the hook reported.
pub fn construct<C: DynamicUiHooks>(ui: C, parent: Option<ControlHandle>) -> (r: (
    C,
    Result<(), BuildError>,
))
    ensures
        exists|s: &mut C|
            *s == ui && #[trigger] call_ensures(C::build, (s, parent), r.1) && *final(s) == r.0,
{
    let mut ui = ui;
    let result = ui.build(parent);
    let r = (ui, result);
    proof {
        assert(r.0 == ui && r.1 == result);
    }
    r
}

/// Tells a plugin that its build is over. The result is the plugin and the
/// outbox as the hook left them.
pub fn finish<C: DynamicUiHooks>(ui: C, list: &UiList<C>, outbox: Outbox<C::Action>) -> (r: (
    C,
    Outbox<C::Action>,
))
    ensures
        exists|s: &mut C, o: &mut Outbox<C::Action>|
            {
                &&& *s == ui
                &&& *o == outbox
                &&& #[trigger] call_ensures(C::after_build, (s, list, o), ())
                &&& *final(s) == r.0
                &&& *final(o) == r.1
            },
{
    let mut ui = ui;
    let mut outbox = outbox;
    ui.after_build(list, &mut outbox);
    let r = (ui, outbox);
    proof {
        assert(r.0 == ui && r.1 == outbox);
    }
    r
}

/// The bookkeeping when a teardown of all plugins in list order has reached
/// the plugin at `n`: the entries before it are marked as destroyed.
pub open spec fn infos_torn_upto(infos: Seq<PluginInfo>, n: int) -> Seq<PluginInfo> {
    Seq::new(
        infos.len(),
        |i: int|
            if i < n {
                PluginInfo {
                    id: infos[i].id,
                    parent_id: infos[i].parent_id,
                    state: PluginState::Destroyed,
                }
            } else {
                infos[i]
            },
    )
}

/// Whether teardown did to the plugin at `ix` what its hook says, and `out`
/// is what the hook asked for. `before` holds the plugins before the
/// teardown and `after` the plugins after it; `infos` is the bookkeeping
/// before it.
///
/// A built plugin was told that it is torn down, with the other plugins as
/// the list and an outbox that asked for nothing yet. Any other plugin is as
/// it was.
pub open spec fn torn_down<C: DynamicUiHooks>(
    before: Seq<C>,
    after: Seq<C>,
    infos: Seq<PluginInfo>,
    ix: int,
    out: Outbox<C::Action>,
) -> bool {
    if infos[ix].state == PluginState::Built {
        exists|list: UiList<C>, fresh: Outbox<C::Action>|
            {
                &&& asks_nothing(fresh)
                &&& #[trigger] call_ensures(
                    tear_down::<C>,
                    (before[ix], &list, fresh),
                    (after[ix], out),
                )
                &&& list.infos() == infos_torn_upto(infos, ix).remove(ix)
                &&& list.uis() == others_at(before, after, ix)
            }
    } else {
        after[ix] == before[ix] && asks_nothing(out)
    }
}

/// What teardown says of a plugin depends only on the plugin itself and on
/// the plugins that its hook could look at.
pub proof fn lemma_torn_down_others<C: DynamicUiHooks>(
    before: Seq<C>,
    after: Seq<C>,
    after2: Seq<C>,
    infos: Seq<PluginInfo>,
    ix: int,
    out: Outbox<C::Action>,
)
    requires
        torn_down(before, after, infos, ix, out),
        0 <= ix < before.len(),
        after.len() == before.len(),
        after2.len() == before.len(),
        forall|j: int| 0 <= j <= ix ==> after2[j] == after[j],
    ensures
        torn_down(before, after2, infos, ix, out),
{
    assert(others_at(before, after, ix) =~= others_at(before, after2, ix));
}

/// Whether teardown did to every plugin what its hook says, and `outs` holds
/// for each what the hook asked for.
pub open spec fn all_torn_down<C: DynamicUiHooks>(
    before: Seq<C>,
    after: Seq<C>,
    infos: Seq<PluginInfo>,
    outs: Seq<Outbox<C::Action>>,
) -> bool {
    &&& outs.len() == infos.len()
    &&& forall|ix: int|
        0 <= ix < infos.len() ==> #[trigger] torn_down(before, after, infos, ix, outs[ix])
}

/// What the hooks of a plugin did and answered when it was rebuilt.
pub struct Rebuilding<C: DynamicUiHooks> {
    /// The plugin as its hooks left it.
    pub ui: C,
    /// What the hooks asked for, in the order in which they asked.
    pub outbox: Outbox<C::Action>,
    /// The handles that the plugin reported before it was torn down. None
    /// for a plugin that was not built.
    pub given_up: Vec<ControlHandle>,
    /// Whether `before_build` left the plugin to be built.
    pub should_build: bool,
    /// The parent that `before_build` named.
    pub parent: Option<(ControlHandle, Kind)>,
    /// What `build` reported, if it was called.
    pub built: Option<Result<(), BuildError>>,
}

/// The plugin and the outbox between the hooks of one rebuild.
pub struct Stages<C: DynamicUiHooks> {
    /// The outbox that the first hook gets.
    pub fresh: Outbox<C::Action>,
    /// After `before_rebuild`, if the plugin was built.
    pub torn: (C, Outbox<C::Action>),
    /// After `before_build`.
    pub prepared: (C, Outbox<C::Action>),
    /// After `build`, if the plugin was to be built.
    pub constructed: C,
}

/// The handle of the parent that a plugin named.
pub open spec fn handle_of(parent: Option<(ControlHandle, Kind)>) -> Option<ControlHandle> {
    match parent {
        Some(p) => Some(p.0),
        None => None,
    }
}

/// The id of the parent that a plugin named.
pub open spec fn kind_of(parent: Option<(ControlHandle, Kind)>) -> Option<Kind> {
    match parent {
        Some(p) => Some(p.1),
        None => None,
    }
}

/// Whether `r` is what the hooks of `ui` may do and answer in a rebuild that
/// goes through the stages `st`.
///
/// A plugin that was built reports its handles and is told that it is torn
/// down. Then `before_build` is asked. If it leaves the plugin to be built,
/// `build` is called with the handle that `before_build` named, and then
/// `after_build`; otherwise neither is called. Every hook gets `list`, and the
/// outbox goes from hook to hook.
pub open spec fn stages_hold<C: DynamicUiHooks>(
    ui: C,
    state: PluginState,
    list: UiList<C>,
    r: Rebuilding<C>,
    st: Stages<C>,
) -> bool {
    &&& asks_nothing(st.fresh)
    &&& if state == PluginState::Built {
        &&& call_ensures(given_up::<C>, (&ui, &list), r.given_up)
        &&& call_ensures(tear_down::<C>, (ui, &list, st.fresh), st.torn)
    } else {
        &&& r.given_up@.len() == 0
        &&& st.torn == (ui, st.fresh)
    }
    &&& call_ensures(
        prepare::<C>,
        (st.torn.0, &list, st.torn.1),
        (st.prepared.0, st.prepared.1, r.should_build, r.parent),
    )
    &&& if r.should_build {
        &&& r.built.is_some()
        &&& call_ensures(
            construct::<C>,
            (st.prepared.0, handle_of(r.parent)),
            (st.constructed, r.built.unwrap()),
        )
        &&& call_ensures(finish::<C>, (st.constructed, &list, st.prepared.1), (r.ui, r.outbox))
    } else {
        &&& r.built.is_none()
        &&& (r.ui, r.outbox) == st.prepared
    }
}

/// Whether `r` is what the hooks of `ui` may do and answer in a rebuild.
pub open spec fn hooks_rebuilt<C: DynamicUiHooks>(
    ui: C,
    state: PluginState,
    list: UiList<C>,
    r: Rebuilding<C>,
) -> bool {
    exists|st: Stages<C>| #[trigger] stages_hold(ui, state, list, r, st)
}

/// The outcome to record for a rebuild: dormant if `before_build` declined;
/// else built, under the parent that it named if that is registered, with the
/// error that `build` reported.
pub open spec fn outcome_of<C: DynamicUiHooks>(r: Rebuilding<C>, infos: Seq<PluginInfo>) -> ScanOutcome {
    if r.should_build {
        ScanOutcome::Built {
            parent_id: recorded_parent(infos, kind_of(r.parent)),
            error: match r.built {
                Some(Err(e)) => Some(e),
                _ => None,
            },
        }
    } else {
        ScanOutcome::Dormant
    }
}

/// Runs the hooks of one rebuild on a plugin that is out of the list.
pub fn rebuild_hooks<C: DynamicUiHooks>(ui: C, state: PluginState, list: &UiList<C>) -> (r: Rebuilding<C>)
    ensures
        hooks_rebuilt(ui, state, *list, r),
{
    let fresh = Outbox::new();
    let ghost fresh0 = fresh;
    let mut given: Vec<ControlHandle> = Vec::new();
    let torn = if state == PluginState::Built {
        given = given_up(&ui, list);
        tear_down(ui, list, fresh)
    } else {
        (ui, fresh)
    };
    let ghost torn0 = torn;
    let (prepared, prepared_box, should_build, parent) = prepare(torn.0, list, torn.1);
    let ghost prepared0 = (prepared, prepared_box);
    if should_build {
        let parent_handle = match parent {
            Some(p) => Some(p.0),
            None => None,
        };
        let (constructed, result) = construct(prepared, parent_handle);
        let ghost constructed0 = constructed;
        let (finished, outbox) = finish(constructed, list, prepared_box);
        let r = Rebuilding {
            ui: finished,
            outbox,
            given_up: given,
            should_build,
            parent,
            built: Some(result),
        };
        proof {
            let st = Stages {
                fresh: fresh0,
                torn: torn0,
                prepared: prepared0,
                constructed: constructed0,
            };
            assert(stages_hold(ui, state, *list, r, st));
        }
        r
    } else {
        let r = Rebuilding {
            ui: prepared,
            outbox: prepared_box,
            given_up: given,
            should_build,
            parent,
            built: None,
        };
        proof {
            let st = Stages {
                fresh: fresh0,
                torn: torn0,
                prepared: prepared0,
                constructed: prepared,
            };
            assert(stages_hold(ui, state, *list, r, st));
        }
        r
    }
}

/// The plugins that the hooks of the plugin at `ix` get as their list while a
/// walk or a build goes through the list in order: the plugins before it as
/// they are afterwards, for they had their turn, and the plugins after it as
/// they were before.
pub open spec fn others_at<C>(before: Seq<C>, after: Seq<C>, ix: int) -> Seq<C> {
    Seq::new(
        (before.len() - 1) as nat,
        |j: int|
            if j < ix {
                after[j]
            } else {
                before[j + 1]
            },
    )
}

/// Whether `record` is what the hooks of a plugin answered when a walk or a
/// build reached it, and `out` what they asked for. `before` holds the
/// plugins before the walk and `after` the plugins after it; `infos` is the
/// bookkeeping when the plugin was reached.
///
/// A plugin is recorded as left alone only if it says that its place among
/// its siblings does not matter; then no other hook is called on it. A
/// plugin that was asked for its place, which is so where `asked_order`
/// holds, and rebuilt all the same says that its place matters. A rebuilt
/// plugin went through the hooks of a rebuild, with the other plugins as the
/// list: its outcome is what they answered, the handles that were unbound
/// are those that it gave up, and it is now as they left it.
pub open spec fn record_follows<C: DynamicUiHooks>(
    before: Seq<C>,
    after: Seq<C>,
    infos: Seq<PluginInfo>,
    asked_order: bool,
    record: ScanRecord,
    out: Outbox<C::Action>,
) -> bool {
    let ix = record.index as int;
    if record.outcome is Unordered {
        &&& call_ensures(C::is_ordered_in_parent, (&before[ix],), false)
        &&& after[ix] == before[ix]
        &&& record.unbound_windows@.len() == 0
        &&& asks_nothing(out)
    } else {
        &&& asked_order ==> call_ensures(C::is_ordered_in_parent, (&before[ix],), true)
        &&& exists|list: UiList<C>, r: Rebuilding<C>|
            {
                &&& #[trigger] hooks_rebuilt(before[ix], infos[ix].state, list, r)
                &&& list.infos() == infos.remove(ix)
                &&& list.uis() == others_at(before, after, ix)
                &&& record.outcome == outcome_of(r, infos)
                &&& record.unbound_windows@ == r.given_up@
                &&& after[ix] == r.ui
                &&& out == r.outbox
            }
    }
}

/// What a record says of the hooks depends only on the plugin itself and on
/// the plugins that its hooks could look at.
pub proof fn lemma_record_follows_others<C: DynamicUiHooks>(
    before: Seq<C>,
    after: Seq<C>,
    before2: Seq<C>,
    after2: Seq<C>,
    infos: Seq<PluginInfo>,
    asked_order: bool,
    record: ScanRecord,
    out: Outbox<C::Action>,
)
    requires
        record_follows(before, after, infos, asked_order, record, out),
        record.index < before.len(),
        before.len() == after.len(),
        before2.len() == before.len(),
        after2.len() == before.len(),
        before2[record.index as int] == before[record.index as int],
        after2[record.index as int] == after[record.index as int],
        forall|j: int| 0 <= j < record.index ==> after2[j] == after[j],
        forall|j: int| record.index < j < before.len() ==> before2[j] == before[j],
    ensures
        record_follows(before2, after2, infos, asked_order, record, out),
{
    let ix = record.index as int;
    let a = others_at(before, after, ix);
    let b = others_at(before2, after2, ix);
    assert(a.len() == b.len());
    assert forall|j: int| 0 <= j < a.len() implies a[j] == b[j] by {
        if j < ix {
            assert(after2[j] == after[j]);
        } else {
            assert(before2[j + 1] == before[j + 1]);
        }
    }
    assert(a =~= b);
}

/// Whether the record at `k` of a walk that started from `start` is what the
/// hooks of its plugin answered, and `out` what they asked for.
pub open spec fn walk_record_follows<C: DynamicUiHooks>(
    before: Seq<C>,
    after: Seq<C>,
    start: ScanState,
    records: Seq<ScanRecord>,
    k: int,
    out: Outbox<C::Action>,
) -> bool {
    record_follows(
        before,
        after,
        scan_state(start, records.take(k)).infos,
        scan_state(start, records.take(k)).affected_parents.len() > 0,
        records[k],
        out,
    )
}

/// Whether every record of a walk that started from `start` is what the
/// hooks of its plugin answered, and `outs` holds for each what they asked
/// for.
pub open spec fn walk_follows<C: DynamicUiHooks>(
    before: Seq<C>,
    after: Seq<C>,
    start: ScanState,
    records: Seq<ScanRecord>,
    outs: Seq<Outbox<C::Action>>,
) -> bool {
    &&& outs.len() == records.len()
    &&& forall|k: int|
        0 <= k < records.len() ==> #[trigger] walk_record_follows(
            before,
            after,
            start,
            records,
            k,
            outs[k],
        )
}

/// The bookkeeping when a build of all plugins in list order has reached the
/// plugin at `n`: the entries before it are as the records say.
pub open spec fn infos_built_upto(infos: Seq<PluginInfo>, records: Seq<ScanRecord>, n: int) -> Seq<
    PluginInfo,
> {
    Seq::new(
        infos.len(),
        |i: int|
            if i < n {
                info_after(infos[i], records[i].outcome)
            } else {
                infos[i]
            },
    )
}

/// Whether the record at `k` of a build of all plugins in list order is what
/// the hooks of its plugin answered, and `out` what they asked for.
pub open spec fn build_record_follows<C: DynamicUiHooks>(
    before: Seq<C>,
    after: Seq<C>,
    infos: Seq<PluginInfo>,
    records: Seq<ScanRecord>,
    k: int,
    out: Outbox<C::Action>,
) -> bool {
    record_follows(before, after, infos_built_upto(infos, records, k), false, records[k], out)
}

/// Whether every record of a build of all plugins in list order is what the
/// hooks of its plugin answered, and `outs` holds for each what they asked
/// for.
pub open spec fn build_follows<C: DynamicUiHooks>(
    before: Seq<C>,
    after: Seq<C>,
    infos: Seq<PluginInfo>,
    records: Seq<ScanRecord>,
    outs: Seq<Outbox<C::Action>>,
) -> bool {
    &&& outs.len() == records.len()
    &&& forall|k: int|
        0 <= k < records.len() ==> #[trigger] build_record_follows(
            before,
            after,
            infos,
            records,
            k,
            outs[k],
        )
}

} // verus!
