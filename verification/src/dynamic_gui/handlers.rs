//! Bookkeeping of the native handles that have event handlers bound.
//!
//! The engine never talks to the toolkit. It says which handles need
//! handlers, the host binds them and reports how that went, and the engine
//! records the result.

use vstd::prelude::*;
use super::handle::ControlHandle;
use vstd::string::*;
use super::plugin::{BuildError, Kind};

verus! {

/// A handle that needs event handlers, tagged with the plugin that owns it and
/// with whether raw handlers are wanted on its child windows too.
///
/// Two sets of bound handles are the same if they hold the same triples in
/// the same order.
#[derive(Clone, Copy, PartialEq, Eq, Structural, Debug)]
pub struct BindRequest {
    pub plugin_id: Kind,
    pub raw_child_events: bool,
    pub window: ControlHandle,
}

/// What became of the raw handler of a bound handle.
#[derive(Clone, Copy, PartialEq, Eq, Structural, Debug)]
pub enum RawEventHandlerData {
    /// Bound on the handle and on this many of its child windows.
    WithChildren(usize),
    /// Bound on the handle alone.
    ParentOnly,
    /// Not bound: the handle gets no raw events.
    FailedToBind,
}

/// One handle that the host was asked to bind, with what was asked for and
/// what became of it.
///
/// A handle stays on record whatever the host reported, so that it is not
/// asked for again for as long as the same handles are wanted.
#[derive(Clone, Copy, PartialEq, Eq, Structural, Debug)]
pub struct EventHandlerData {
    pub plugin_id: Kind,
    /// Whether raw handlers were asked for on the child windows too.
    pub raw_child_events: bool,
    pub window: ControlHandle,
    pub raw_handler: RawEventHandlerData,
    /// Whether the handler for processed events was bound. If not, the
    /// plugin gets no events through this handle.
    pub bound: bool,
}

/// The host's report on one [`BindRequest`].
#[derive(Clone, Copy, PartialEq, Eq, Structural, Debug)]
pub struct BindOutcome {
    /// The raw handler was bound on the handle.
    pub raw_bound: bool,
    /// The number of child windows that got a raw handler.
    pub child_handlers: usize,
    /// The handler for processed events was bound.
    pub bound: bool,
}

/// Whether the host should look for child windows of the handle and bind raw
/// handlers on them: they were asked for and the handle is a window.
pub open spec fn spec_wants_child_handlers(request: BindRequest) -> bool {
    request.raw_child_events && request.window.spec_hwnd().is_some()
}

/// The raw handler state that results from a request and its outcome.
pub open spec fn spec_raw_handler(request: BindRequest, outcome: BindOutcome) -> RawEventHandlerData {
    if !outcome.raw_bound {
        RawEventHandlerData::FailedToBind
    } else if spec_wants_child_handlers(request) {
        RawEventHandlerData::WithChildren(outcome.child_handlers)
    } else {
        RawEventHandlerData::ParentOnly
    }
}

/// The triple under which a handle on record is compared with what is
/// wanted: what was asked for, whatever became of it.
pub open spec fn spec_key(data: EventHandlerData) -> BindRequest {
    BindRequest {
        plugin_id: data.plugin_id,
        raw_child_events: data.raw_child_events,
        window: data.window,
    }
}

/// What goes on record for a request once the host has reported `outcome`.
pub open spec fn spec_recorded(request: BindRequest, outcome: BindOutcome) -> EventHandlerData {
    EventHandlerData {
        plugin_id: request.plugin_id,
        raw_child_events: request.raw_child_events,
        window: request.window,
        raw_handler: spec_raw_handler(request, outcome),
        bound: outcome.bound,
    }
}

/// The triples of a list of bound handles.
pub open spec fn keys_of(handlers: Seq<EventHandlerData>) -> Seq<BindRequest> {
    Seq::new(handlers.len(), |i: int| spec_key(handlers[i]))
}

/// The outcome that stands for "the host said nothing about this request".
pub open spec fn missing_outcome() -> BindOutcome {
    BindOutcome { raw_bound: false, child_handlers: 0, bound: false }
}

/// The outcome of the request at `ix`: the one reported, or
/// [`missing_outcome`] if the report is too short.
pub open spec fn outcome_at(outcomes: Seq<BindOutcome>, ix: int) -> BindOutcome {
    if 0 <= ix < outcomes.len() {
        outcomes[ix]
    } else {
        missing_outcome()
    }
}

/// The handlers to record for the first `n` requests: one for every request,
/// in the order of the requests.
pub open spec fn handlers_for(
    requests: Seq<BindRequest>,
    outcomes: Seq<BindOutcome>,
    n: nat,
) -> Seq<EventHandlerData>
    decreases n,
{
    if n == 0 || n > requests.len() {
        Seq::empty()
    } else {
        handlers_for(requests, outcomes, (n - 1) as nat).push(
            spec_recorded(requests[n - 1], outcome_at(outcomes, n - 1)),
        )
    }
}

/// The raw handler could not be bound on a handle. The handle gets no raw
/// events.
#[derive(Clone, Copy, PartialEq, Eq, Structural, Debug)]
pub struct BindError {
    pub plugin_id: Kind,
    pub window: ControlHandle,
}

/// The handler for processed events could not be bound on a handle of a
/// plugin. That counts as a failed build of the plugin: it gets no events
/// through the handle, which is on record as not bound.
#[derive(Clone, PartialEq, Eq, Debug)]
pub struct HandlerBuildError {
    pub plugin_id: Kind,
    pub window: ControlHandle,
    pub error: BuildError,
}

/// What went wrong while the host bound handlers.
pub struct BindReport {
    /// One error for each request whose raw handler was not bound, in the
    /// order of the requests.
    pub bind_errors: Vec<BindError>,
    /// One error for each request whose handler for processed events was not
    /// bound, in the order of the requests.
    pub build_errors: Vec<HandlerBuildError>,
}

/// What the build error for a handler that was not bound says.
pub open spec fn handler_error_text() -> Seq<char> {
    "the event handler could not be bound"@
}

/// One error for each of the first `n` requests whose raw handler was not
/// bound, in the order of the requests.
pub open spec fn bind_errors(
    requests: Seq<BindRequest>,
    outcomes: Seq<BindOutcome>,
    n: nat,
) -> Seq<BindError>
    decreases n,
{
    if n == 0 || n > requests.len() {
        Seq::empty()
    } else {
        let rest = bind_errors(requests, outcomes, (n - 1) as nat);
        if outcome_at(outcomes, n - 1).raw_bound {
            rest
        } else {
            rest.push(
                BindError { plugin_id: requests[n - 1].plugin_id, window: requests[n - 1].window },
            )
        }
    }
}

/// The requests among the first `n` whose handler for processed events was
/// not bound, in their order.
pub open spec fn unbound_requests(
    requests: Seq<BindRequest>,
    outcomes: Seq<BindOutcome>,
    n: nat,
) -> Seq<BindRequest>
    decreases n,
{
    if n == 0 || n > requests.len() {
        Seq::empty()
    } else {
        let rest = unbound_requests(requests, outcomes, (n - 1) as nat);
        if outcome_at(outcomes, n - 1).bound {
            rest
        } else {
            rest.push(requests[n - 1])
        }
    }
}

/// Whether `errors` holds one build error for each of `requests`, in their
/// order.
pub open spec fn build_errors_for(errors: Seq<HandlerBuildError>, requests: Seq<BindRequest>) -> bool {
    &&& errors.len() == requests.len()
    &&& forall|k: int|
        0 <= k < errors.len() ==> {
            &&& (#[trigger] errors[k]).plugin_id == requests[k].plugin_id
            &&& errors[k].window == requests[k].window
            &&& errors[k].error.message@ == handler_error_text()
        }
}

impl BindReport {
    /// Whether the report is the one for `requests` and `outcomes`.
    pub open spec fn reports(&self, requests: Seq<BindRequest>, outcomes: Seq<BindOutcome>) -> bool {
        &&& self.bind_errors@ == bind_errors(requests, outcomes, requests.len())
        &&& build_errors_for(
            self.build_errors@,
            unbound_requests(requests, outcomes, requests.len()),
        )
    }

    /// Whether the report holds no error.
    pub open spec fn is_clean(&self) -> bool {
        self.bind_errors@.len() == 0 && self.build_errors@.len() == 0
    }
}

/// Those of the first `n` handlers whose handle is none of `windows`, in
/// their order.
pub open spec fn handlers_kept(
    handlers: Seq<EventHandlerData>,
    windows: Seq<ControlHandle>,
    n: nat,
) -> Seq<EventHandlerData>
    decreases n,
{
    if n == 0 || n > handlers.len() {
        Seq::empty()
    } else {
        let rest = handlers_kept(handlers, windows, (n - 1) as nat);
        if windows.contains(handlers[n - 1].window) {
            rest
        } else {
            rest.push(handlers[n - 1])
        }
    }
}

/// Those of the first `n` handlers whose handle is one of `windows`, in their
/// order.
pub open spec fn handlers_dropped(
    handlers: Seq<EventHandlerData>,
    windows: Seq<ControlHandle>,
    n: nat,
) -> Seq<EventHandlerData>
    decreases n,
{
    if n == 0 || n > handlers.len() {
        Seq::empty()
    } else {
        let rest = handlers_dropped(handlers, windows, (n - 1) as nat);
        if windows.contains(handlers[n - 1].window) {
            rest.push(handlers[n - 1])
        } else {
            rest
        }
    }
}

impl BindRequest {
    /// Whether the host should bind raw handlers on the child windows of the
    /// handle.
    pub fn wants_child_handlers(&self) -> (r: bool)
        ensures
            r == spec_wants_child_handlers(*self),
    {
        self.raw_child_events && self.window.hwnd().is_some()
    }

    /// The raw handler state to record once the host has reported `outcome`.
    pub fn raw_handler(&self, outcome: BindOutcome) -> (r: RawEventHandlerData)
        ensures
            r == spec_raw_handler(*self, outcome),
    {
        if !outcome.raw_bound {
            RawEventHandlerData::FailedToBind
        } else if self.wants_child_handlers() {
            RawEventHandlerData::WithChildren(outcome.child_handlers)
        } else {
            RawEventHandlerData::ParentOnly
        }
    }

    /// What goes on record for this request once the host has reported
    /// `outcome`.
    pub fn recorded(&self, outcome: BindOutcome) -> (r: EventHandlerData)
        ensures
            r == spec_recorded(*self, outcome),
    {
        EventHandlerData {
            plugin_id: self.plugin_id,
            raw_child_events: self.raw_child_events,
            window: self.window,
            raw_handler: self.raw_handler(outcome),
            bound: outcome.bound,
        }
    }
}

impl EventHandlerData {
    /// The triple under which this bound handle is compared with what is
    /// wanted.
    pub fn key(&self) -> (r: BindRequest)
        ensures
            r == spec_key(*self),
    {
        BindRequest {
            plugin_id: self.plugin_id,
            raw_child_events: self.raw_child_events,
            window: self.window,
        }
    }
}

/// Whether `windows` holds `window`.
pub fn contains_window(windows: &Vec<ControlHandle>, window: ControlHandle) -> (r: bool)
    ensures
        r == windows@.contains(window),
{
    let mut ix: usize = 0;
    while ix < windows.len()
        invariant
            ix <= windows@.len(),
            forall|j: int| 0 <= j < ix ==> windows@[j] != window,
        decreases windows@.len() - ix,
    {
        if windows[ix] == window {
            return true;
        }
        ix = ix + 1;
    }
    false
}

/// Forgets the handlers that are bound on one of `windows` and appends them
/// to `unbound`, so that the host can take them off the native resources.
pub fn unbind_windows(
    handlers: &mut Vec<EventHandlerData>,
    windows: &Vec<ControlHandle>,
    unbound: &mut Vec<EventHandlerData>,
)
    ensures
        final(handlers)@ == handlers_kept(old(handlers)@, windows@, old(handlers)@.len()),
        final(unbound)@ == old(unbound)@ + handlers_dropped(
            old(handlers)@,
            windows@,
            old(handlers)@.len(),
        ),
{
    let mut kept: Vec<EventHandlerData> = Vec::new();
    let mut ix: usize = 0;
    proof {
        assert(unbound@ =~= old(unbound)@ + handlers_dropped(handlers@, windows@, 0));
    }
    while ix < handlers.len()
        invariant
            ix <= handlers@.len(),
            handlers@ == old(handlers)@,
            kept@ == handlers_kept(handlers@, windows@, ix as nat),
            unbound@ == old(unbound)@ + handlers_dropped(handlers@, windows@, ix as nat),
        decreases handlers@.len() - ix,
    {
        let data = handlers[ix];
        if contains_window(windows, data.window) {
            unbound.push(data);
            proof {
                assert(unbound@ =~= old(unbound)@ + handlers_dropped(
                    handlers@,
                    windows@,
                    (ix + 1) as nat,
                ));
            }
        } else {
            kept.push(data);
        }
        ix = ix + 1;
    }
    *handlers = kept;
}

/// The triples of the handles that are bound now.
pub fn current_handles(handlers: &Vec<EventHandlerData>) -> (r: Vec<BindRequest>)
    ensures
        r@ == keys_of(handlers@),
{
    let mut r: Vec<BindRequest> = Vec::new();
    let mut ix: usize = 0;
    while ix < handlers.len()
        invariant
            ix <= handlers@.len(),
            r@ == keys_of(handlers@.take(ix as int)),
        decreases handlers@.len() - ix,
    {
        r.push(handlers[ix].key());
        proof {
            assert(r@ =~= keys_of(handlers@.take(ix + 1)));
        }
        ix = ix + 1;
    }
    proof {
        assert(handlers@.take(ix as int) =~= handlers@);
    }
    r
}

/// Whether two lists of triples are the same.
pub fn same_handles(a: &Vec<BindRequest>, b: &Vec<BindRequest>) -> (r: bool)
    ensures
        r == (a@ == b@),
{
    if a.len() != b.len() {
        return false;
    }
    let mut ix: usize = 0;
    while ix < a.len()
        invariant
            ix <= a@.len(),
            a@.len() == b@.len(),
            forall|j: int| 0 <= j < ix ==> a@[j] == b@[j],
        decreases a@.len() - ix,
    {
        if a[ix] != b[ix] {
            return false;
        }
        ix = ix + 1;
    }
    proof {
        assert(a@ =~= b@);
    }
    true
}

/// What goes on record after the host has worked through `requests`, and the
/// errors to report. A request that the report of the host does not reach
/// counts as not bound at all.
pub fn record_bindings(requests: &Vec<BindRequest>, outcomes: &Vec<BindOutcome>) -> (r: (
    Vec<EventHandlerData>,
    BindReport,
))
    ensures
        r.0@ == handlers_for(requests@, outcomes@, requests@.len()),
        r.1.reports(requests@, outcomes@),
{
    let mut handlers: Vec<EventHandlerData> = Vec::new();
    let mut bind_failures: Vec<BindError> = Vec::new();
    let mut build_failures: Vec<HandlerBuildError> = Vec::new();
    let mut ix: usize = 0;
    while ix < requests.len()
        invariant
            ix <= requests@.len(),
            handlers@ == handlers_for(requests@, outcomes@, ix as nat),
            bind_failures@ == bind_errors(requests@, outcomes@, ix as nat),
            build_errors_for(build_failures@, unbound_requests(requests@, outcomes@, ix as nat)),
        decreases requests@.len() - ix,
    {
        let request = requests[ix];
        let outcome = if ix < outcomes.len() {
            outcomes[ix]
        } else {
            BindOutcome { raw_bound: false, child_handlers: 0, bound: false }
        };
        if !outcome.raw_bound {
            bind_failures.push(BindError { plugin_id: request.plugin_id, window: request.window });
        }
        handlers.push(request.recorded(outcome));
        if !outcome.bound {
            let ghost before = build_failures@;
            let ghost wanted = unbound_requests(requests@, outcomes@, ix as nat);
            build_failures.push(
                HandlerBuildError {
                    plugin_id: request.plugin_id,
                    window: request.window,
                    error: BuildError {
                        message: String::from_str("the event handler could not be bound"),
                    },
                },
            );
            proof {
                let errors = build_failures@;
                let all = unbound_requests(requests@, outcomes@, (ix + 1) as nat);
                assert(all == wanted.push(request));
                assert forall|k: int| 0 <= k < errors.len() implies {
                    &&& (#[trigger] errors[k]).plugin_id == all[k].plugin_id
                    &&& errors[k].window == all[k].window
                    &&& errors[k].error.message@ == handler_error_text()
                } by {
                    if k < before.len() {
                        assert(errors[k] == before[k]);
                        assert(all[k] == wanted[k]);
                    }
                }
            }
        }
        ix = ix + 1;
    }
    (handlers, BindReport { bind_errors: bind_failures, build_errors: build_failures })
}

/// With no handle to unbind, every handler stays.
pub proof fn lemma_kept_all(handlers: Seq<EventHandlerData>, n: nat)
    requires
        n <= handlers.len(),
    ensures
        handlers_kept(handlers, Seq::<ControlHandle>::empty(), n) == handlers.take(n as int),
    decreases n,
{
    if n > 0 {
        lemma_kept_all(handlers, (n - 1) as nat);
        assert(handlers.take(n as int) =~= handlers.take(n - 1).push(handlers[n - 1]));
    } else {
        assert(handlers.take(0) =~= Seq::<EventHandlerData>::empty());
    }
}

/// With no handle to unbind, no handler is forgotten.
pub proof fn lemma_dropped_none(handlers: Seq<EventHandlerData>, n: nat)
    ensures
        handlers_dropped(handlers, Seq::<ControlHandle>::empty(), n) == Seq::<
            EventHandlerData,
        >::empty(),
    decreases n,
{
    if n > 0 && n <= handlers.len() {
        lemma_dropped_none(handlers, (n - 1) as nat);
    }
}

} // verus!
