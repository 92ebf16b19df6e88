use std::cell::{Cell, RefCell};
use std::rc::Rc;

use virtual_desktop_manager::dynamic_gui::answers::{
    deliver, deliver_raw, push_requests, rebuild_hooks, reported_handles,
};
use virtual_desktop_manager::dynamic_gui::{
    ActionDroppedError, BindError, BindOutcome, BindRequest, BuildError, ControlHandle, DynamicUi,
    DynamicUiHooks, DynamicUiRef, EventHandlerData, HandlerBuildError, Kind, Outbox, PluginInfo,
    PluginState, RawEvent, RawEventHandlerData, ScanOutcome, ScanRecord, Step, UiList,
};

const ROOT: Kind = 1;
const SETTINGS: Kind = 2;
const MENU_A: Kind = 3;
const MENU_B: Kind = 4;

type Log = Rc<RefCell<Vec<String>>>;

/// A plugin whose every answer is set by the test and that writes down each
/// hook that is called on it.
#[derive(Default)]
struct Probe {
    name: &'static str,
    parent: Option<(ControlHandle, Kind)>,
    unordered: bool,
    need_rebuild: Cell<bool>,
    veto: Cell<bool>,
    fail_build: bool,
    handles: Vec<ControlHandle>,
    raw_children: bool,
    raw_answer: Option<isize>,
    submit_on_build: Option<u32>,
    submit_on_event: Option<u32>,
    destroy_on_event: bool,
    keep_asking: bool,
    log: Log,
}

impl Probe {
    fn new(name: &'static str, log: &Log) -> Self {
        Probe { name, log: log.clone(), ..Default::default() }
    }
    fn under(mut self, handle: ControlHandle, kind: Kind) -> Self {
        self.parent = Some((handle, kind));
        self
    }
    fn with_handles(mut self, handles: &[ControlHandle]) -> Self {
        self.handles = handles.to_vec();
        self
    }
    fn note(&self, what: &str) {
        self.log.borrow_mut().push(format!("{}:{}", self.name, what));
    }
}

impl DynamicUiHooks for Probe {
    type Event = u32;
    type Action = u32;

    fn before_build(
        &mut self,
        _ui: &UiList<Self>,
        actions: &mut Outbox<u32>,
        should_build: &mut bool,
    ) -> Option<(ControlHandle, Kind)> {
        self.note("before_build");
        if self.veto.get() {
            *should_build = false;
        }
        if let Some(action) = self.submit_on_build {
            actions.submit(action);
        }
        self.parent
    }

    fn build(&mut self, parent: Option<ControlHandle>) -> Result<(), BuildError> {
        self.note(&format!("build({:?})", parent));
        if self.fail_build {
            Err(BuildError { message: format!("{} cannot be built", self.name) })
        } else {
            Ok(())
        }
    }

    fn after_build(&mut self, _ui: &UiList<Self>, _actions: &mut Outbox<u32>) {
        self.note("after_build");
    }

    fn handles(&self) -> Vec<ControlHandle> {
        self.handles.clone()
    }

    fn need_raw_events_for_children(&self) -> bool {
        self.raw_children
    }

    fn dispatch_event(&self, event: &u32, _handle: ControlHandle) {
        self.note(&format!("event({})", event));
    }

    fn after_dispatch(
        &self,
        _ui: &UiList<Self>,
        actions: &mut Outbox<u32>,
        _event: &u32,
        _handle: ControlHandle,
        _window: ControlHandle,
    ) {
        if let Some(action) = self.submit_on_event {
            actions.submit(action);
        }
        if self.destroy_on_event {
            actions.request_destroy();
        }
    }

    fn dispatch_raw_event(
        &self,
        _ui: &UiList<Self>,
        _actions: &mut Outbox<u32>,
        event: RawEvent,
        _window: ControlHandle,
    ) -> Option<isize> {
        self.note(&format!("raw({})", event.msg));
        self.raw_answer
    }

    fn need_rebuild(&self, _ui: &UiList<Self>) -> bool {
        self.need_rebuild.get()
    }

    fn is_ordered_in_parent(&self) -> bool {
        !self.unordered
    }

    fn before_rebuild(&mut self, _ui: &UiList<Self>, _actions: &mut Outbox<u32>) {
        self.note("before_rebuild");
        if !self.keep_asking {
            self.need_rebuild.set(false);
        }
    }
}

fn all_bound(plan: &[BindRequest]) -> Vec<BindOutcome> {
    plan.iter().map(|_| BindOutcome { raw_bound: true, child_handlers: 0, bound: true }).collect()
}

/// Drives the engine as a host would, until it has nothing left to do.
fn settle(ui: &mut DynamicUi<Probe>, performed: &mut Vec<(u32, bool)>) -> Vec<ScanRecord> {
    let mut records = Vec::new();
    for _ in 0..1000 {
        match ui.next_step() {
            Step::Idle | Step::Destroyed => return records,
            Step::Perform(queued) => performed.push((queued.action, queued.delayed)),
            Step::Rebuilt(rebuilt) => {
                records.extend(rebuilt.records);
                if let Some(plan) = rebuilt.bind {
                    let report = ui.finish_bind(&all_bound(&plan));
                    assert!(report.bind_errors.is_empty() && report.build_errors.is_empty());
                }
            }
            Step::AwaitingBind => panic!("the host reported on every request"),
        }
    }
    panic!("the engine did not settle");
}

fn rebuilt_ids(records: &[ScanRecord]) -> Vec<Kind> {
    records
        .iter()
        .filter(|r| r.outcome != ScanOutcome::Unordered)
        .map(|r| r.plugin_id)
        .collect()
}

fn tray(log: &Log) -> DynamicUi<Probe> {
    let root_window = ControlHandle::Hwnd(10);
    let mut settings = Probe::new("settings", log).under(root_window, ROOT);
    settings.unordered = true;
    let ui = DynamicUi::new(vec![
        (ROOT, Probe::new("root", log).with_handles(&[root_window])),
        (SETTINGS, settings),
        (MENU_A, Probe::new("menu_a", log).under(root_window, ROOT)),
        (MENU_B, Probe::new("menu_b", log).under(root_window, ROOT)),
    ]);
    match ui {
        Ok(ui) => ui,
        Err(e) => panic!("duplicate plugin {}", e.kind),
    }
}

fn built_tray(log: &Log) -> DynamicUi<Probe> {
    let mut ui = tray(log);
    let (records, bind) = ui.build_ui();
    assert_eq!(records.len(), 4);
    let plan = bind.expect("the root has a handle to bind");
    let report = ui.finish_bind(&all_bound(&plan));
    assert!(report.bind_errors.is_empty() && report.build_errors.is_empty());
    log.borrow_mut().clear();
    ui
}

#[test]
fn new_registers_every_plugin_once() {
    let log = Log::default();
    let ui = tray(&log);
    assert_eq!(ui.len(), 4);
    for (ix, kind) in [ROOT, SETTINGS, MENU_A, MENU_B].into_iter().enumerate() {
        assert_eq!(
            ui.plugin_info(ix),
            Some(PluginInfo { id: kind, parent_id: None, state: PluginState::Destroyed })
        );
    }
    assert_eq!(ui.plugin_info(4), None);
    assert!(!ui.is_delayed());
    assert_eq!(ui.queued_actions(), 0);
    assert!(ui.event_handlers().is_empty());
}

#[test]
fn new_refuses_a_second_plugin_of_a_kind() {
    let log = Log::default();
    let r = DynamicUi::new(vec![
        (ROOT, Probe::new("a", &log)),
        (MENU_A, Probe::new("b", &log)),
        (ROOT, Probe::new("c", &log)),
    ]);
    match r {
        Ok(_) => panic!("two plugins share an id"),
        Err(e) => assert_eq!(e.kind, ROOT),
    }
}

#[test]
fn initial_build_goes_through_the_list_in_order() {
    let log = Log::default();
    let mut ui = tray(&log);
    let (records, bind) = ui.build_ui();
    assert_eq!(rebuilt_ids(&records), vec![ROOT, SETTINGS, MENU_A, MENU_B]);
    assert_eq!(
        *log.borrow(),
        vec![
            "root:before_build",
            "root:build(None)",
            "root:after_build",
            "settings:before_build",
            "settings:build(Some(Hwnd(10)))",
            "settings:after_build",
            "menu_a:before_build",
            "menu_a:build(Some(Hwnd(10)))",
            "menu_a:after_build",
            "menu_b:before_build",
            "menu_b:build(Some(Hwnd(10)))",
            "menu_b:after_build",
        ]
    );
    assert_eq!(
        ui.plugin_info(2),
        Some(PluginInfo { id: MENU_A, parent_id: Some(ROOT), state: PluginState::Built })
    );
    assert_eq!(
        bind,
        Some(vec![BindRequest {
            plugin_id: ROOT,
            raw_child_events: false,
            window: ControlHandle::Hwnd(10)
        }])
    );
    assert!(ui.is_delayed());
    ui.finish_bind(&all_bound(&bind.unwrap()));
    assert!(!ui.is_delayed());
    assert_eq!(
        *ui.event_handlers(),
        vec![EventHandlerData {
            plugin_id: ROOT,
            raw_child_events: false,
            window: ControlHandle::Hwnd(10),
            raw_handler: RawEventHandlerData::ParentOnly,
            bound: true,
        }]
    );
}

#[test]
fn rebuilding_the_root_rebuilds_the_ordered_menus_in_order() {
    let log = Log::default();
    let mut ui = built_tray(&log);
    ui.get_ui(ROOT).unwrap().need_rebuild.set(true);
    let mut performed = Vec::new();
    let records = settle(&mut ui, &mut performed);
    let rebuilt = rebuilt_ids(&records);
    let order: Vec<Kind> =
        rebuilt.iter().copied().filter(|k| [ROOT, MENU_A, MENU_B].contains(k)).collect();
    assert_eq!(order, vec![ROOT, MENU_A, MENU_B]);
    assert_eq!(rebuilt, vec![ROOT, SETTINGS, MENU_A, MENU_B]);
    assert!(!ui.is_delayed());
    assert_eq!(settle(&mut ui, &mut performed), vec![]);
}

#[test]
fn a_second_look_at_the_handles_asks_for_nothing() {
    let log = Log::default();
    let mut ui = built_tray(&log);
    let bound = ui.event_handlers().clone();
    // No plugin asks for a rebuild: nothing is unbound, nothing is asked for.
    assert!(matches!(ui.next_step(), Step::Idle));
    assert_eq!(*ui.event_handlers(), bound);
    assert!(ui.take_unbound().is_empty());
    // A rebuild of a plugin without handles leaves the bound handles alone.
    ui.get_ui(MENU_B).unwrap().need_rebuild.set(true);
    match ui.next_step() {
        Step::Rebuilt(rebuilt) => {
            assert_eq!(rebuilt.invalidated, vec![MENU_B]);
            assert_eq!(rebuilt.target, MENU_B);
            assert_eq!(rebuilt_ids(&rebuilt.records), vec![MENU_B]);
            assert_eq!(rebuilt.bind, None);
        }
        _ => panic!("a plugin asked for a rebuild"),
    }
    assert_eq!(*ui.event_handlers(), bound);
    assert!(ui.take_unbound().is_empty());
    assert!(!ui.is_delayed());
}

#[test]
fn binding_twice_binds_once() {
    let log = Log::default();
    let mut ui = tray(&log);
    ui.initial_build();
    let plan = ui.bind_event_handlers().expect("the root has a handle");
    assert!(ui.is_delayed());
    // While the host is at work the question is not asked again.
    assert_eq!(ui.bind_event_handlers(), None);
    ui.finish_bind(&all_bound(&plan));
    let bound = ui.event_handlers().clone();
    assert_eq!(ui.bind_event_handlers(), None);
    assert_eq!(ui.bind_event_handlers(), None);
    assert_eq!(*ui.event_handlers(), bound);
    assert!(ui.take_unbound().is_empty());
    assert!(!ui.is_delayed());
}

#[test]
fn a_handle_that_cannot_take_child_handlers_is_bound_once() {
    let log = Log::default();
    let mut root = Probe::new("root", &log).with_handles(&[ControlHandle::Menu(1, 2)]);
    root.raw_children = true;
    let mut ui = DynamicUi::new(vec![(ROOT, root)]).ok().unwrap();
    ui.initial_build();
    let plan = ui.bind_event_handlers().unwrap();
    ui.finish_bind(&all_bound(&plan));
    // A menu has no child windows, so it got a raw handler for itself alone.
    // What was asked for is on record all the same.
    assert_eq!(ui.event_handlers()[0].raw_handler, RawEventHandlerData::ParentOnly);
    assert!(ui.event_handlers()[0].raw_child_events);
    let bound = ui.event_handlers().clone();
    assert_eq!(ui.bind_event_handlers(), None);
    assert!(matches!(ui.next_step(), Step::Idle));
    assert_eq!(*ui.event_handlers(), bound);
    assert!(ui.take_unbound().is_empty());
    assert!(!ui.is_delayed());
}

#[test]
fn a_failed_bind_is_not_tried_again_until_other_handles_are_wanted() {
    let log = Log::default();
    let mut root = Probe::new("root", &log).with_handles(&[ControlHandle::Hwnd(10)]);
    root.raw_children = true;
    let mut ui = DynamicUi::new(vec![(ROOT, root), (MENU_A, Probe::new("menu_a", &log))])
        .ok()
        .unwrap();
    ui.initial_build();
    let plan = ui.bind_event_handlers().unwrap();
    // Neither handler could be bound.
    let report =
        ui.finish_bind(&vec![BindOutcome { raw_bound: false, child_handlers: 0, bound: false }]);
    assert_eq!(report.bind_errors.len(), 1);
    assert_eq!(report.build_errors.len(), 1);
    assert_eq!(
        *ui.event_handlers(),
        vec![EventHandlerData {
            plugin_id: ROOT,
            raw_child_events: true,
            window: ControlHandle::Hwnd(10),
            raw_handler: RawEventHandlerData::FailedToBind,
            bound: false,
        }]
    );
    // The same handles are wanted: the host is left alone.
    assert_eq!(ui.bind_event_handlers(), None);
    assert_eq!(ui.bind_event_handlers(), None);
    assert!(ui.take_unbound().is_empty());
    // A rebuild of a plugin without handles changes nothing about that.
    ui.get_ui(MENU_A).unwrap().need_rebuild.set(true);
    match ui.next_step() {
        Step::Rebuilt(rebuilt) => assert_eq!(rebuilt.bind, None),
        _ => panic!("a plugin asked for a rebuild"),
    }
    // A rebuild of the owner unbinds its handle; then it is asked for again.
    ui.get_ui(ROOT).unwrap().need_rebuild.set(true);
    match ui.next_step() {
        Step::Rebuilt(rebuilt) => assert_eq!(rebuilt.bind, Some(plan)),
        _ => panic!("a plugin asked for a rebuild"),
    }
}

#[test]
fn everything_below_a_rebuilt_plugin_is_rebuilt_after_it() {
    let log = Log::default();
    let window = ControlHandle::Hwnd(10);
    let mut ui = DynamicUi::new(vec![
        (ROOT, Probe::new("root", &log)),
        (5, Probe::new("item", &log).under(window, MENU_A)),
        (MENU_A, Probe::new("menu_a", &log).under(window, ROOT)),
        (6, Probe::new("leaf", &log).under(window, 5)),
        (SETTINGS, Probe::new("settings", &log)),
    ])
    .ok()
    .unwrap();
    ui.build_ui();
    ui.get_ui(ROOT).unwrap().need_rebuild.set(true);
    let mut performed = Vec::new();
    let records = settle(&mut ui, &mut performed);
    let rebuilt = rebuilt_ids(&records);
    assert_eq!(rebuilt, vec![ROOT, MENU_A, 5, 6]);
    let last = |kind: Kind| rebuilt.iter().rposition(|k| *k == kind).unwrap();
    assert!(last(ROOT) < last(MENU_A));
    assert!(last(MENU_A) < last(5));
    assert!(last(5) < last(6));
    assert!(!rebuilt.contains(&SETTINGS));
}

#[test]
fn rebuilding_a_plugin_unbinds_its_handles_and_binds_them_again() {
    let log = Log::default();
    let mut ui = built_tray(&log);
    ui.get_ui(ROOT).unwrap().need_rebuild.set(true);
    let first = match ui.next_step() {
        Step::Rebuilt(rebuilt) => rebuilt,
        _ => panic!("the root asked for a rebuild"),
    };
    assert_eq!(first.records.len(), 1);
    assert_eq!(first.records[0].unbound_windows, vec![ControlHandle::Hwnd(10)]);
    assert_eq!(first.bind, None);
    assert!(ui.event_handlers().is_empty());
    assert_eq!(
        ui.take_unbound(),
        vec![EventHandlerData {
            plugin_id: ROOT,
            raw_child_events: false,
            window: ControlHandle::Hwnd(10),
            raw_handler: RawEventHandlerData::ParentOnly,
            bound: true,
        }]
    );
    assert_eq!(*ui.waiting_rebuilds(), vec![SETTINGS, MENU_A, MENU_B]);
    assert!(ui.is_delayed());
    let second = match ui.next_step() {
        Step::Rebuilt(rebuilt) => rebuilt,
        _ => panic!("ids wait for a rebuild"),
    };
    assert!(second.invalidated.is_empty());
    assert_eq!(second.target, SETTINGS);
    assert_eq!(rebuilt_ids(&second.records), vec![SETTINGS, MENU_A, MENU_B]);
    let plan = second.bind.expect("the root's handle is no longer bound");
    assert_eq!(plan.len(), 1);
    assert!(matches!(ui.next_step(), Step::AwaitingBind));
    assert!(ui.finish_bind(&all_bound(&plan)).build_errors.is_empty());
    assert!(matches!(ui.next_step(), Step::Idle));
}

#[test]
fn an_unordered_sibling_is_left_alone() {
    let log = Log::default();
    let mut ui = built_tray(&log);
    // The first menu is rebuilt; the settings stand before it and are not
    // looked at, the second menu comes after it and is rebuilt too.
    ui.get_ui(MENU_A).unwrap().need_rebuild.set(true);
    let mut performed = Vec::new();
    let records = settle(&mut ui, &mut performed);
    assert_eq!(rebuilt_ids(&records), vec![MENU_A, MENU_B]);
    // The settings are rebuilt; the menus come after them and are rebuilt
    // for their order's sake.
    ui.get_ui(SETTINGS).unwrap().need_rebuild.set(true);
    let records = settle(&mut ui, &mut performed);
    assert_eq!(rebuilt_ids(&records), vec![SETTINGS, MENU_A, MENU_B]);
}

#[test]
fn an_unordered_plugin_after_a_rebuilt_sibling_is_recorded_and_skipped() {
    let log = Log::default();
    let window = ControlHandle::Hwnd(10);
    let mut last = Probe::new("last", &log).under(window, ROOT);
    last.unordered = true;
    let mut ui = DynamicUi::new(vec![
        (ROOT, Probe::new("root", &log)),
        (MENU_A, Probe::new("menu_a", &log).under(window, ROOT)),
        (SETTINGS, last),
        (MENU_B, Probe::new("menu_b", &log).under(window, ROOT)),
    ])
    .ok()
    .unwrap();
    ui.build_ui();
    ui.get_ui(MENU_A).unwrap().need_rebuild.set(true);
    let mut performed = Vec::new();
    let records = settle(&mut ui, &mut performed);
    let seen: Vec<(usize, Kind, bool)> =
        records.iter().map(|r| (r.index, r.plugin_id, r.outcome == ScanOutcome::Unordered)).collect();
    assert_eq!(seen, vec![(1, MENU_A, false), (2, SETTINGS, true), (3, MENU_B, false)]);
}

#[test]
fn an_action_submitted_by_a_hook_is_queued_not_run() {
    let log = Log::default();
    let mut menu = Probe::new("menu_b", &log).under(ControlHandle::Hwnd(10), ROOT);
    menu.submit_on_build = Some(7);
    let mut ui = DynamicUi::new(vec![(ROOT, Probe::new("root", &log)), (MENU_B, menu)])
        .ok()
        .unwrap();
    let (records, bind) = ui.build_ui();
    assert_eq!(records.len(), 2);
    assert_eq!(bind, None);
    // The action that the hook submitted during the first build waits,
    // marked as delayed.
    assert_eq!(ui.queued_actions(), 1);
    assert!(!ui.is_delayed());
    match ui.next_step() {
        Step::Perform(queued) => {
            assert_eq!(queued.action, 7);
            assert!(queued.delayed);
        }
        _ => panic!("an action waits"),
    }
    // The same during a rebuild: the walk comes back with the action in the
    // queue, and the action is handed out only after the pass.
    ui.get_ui(MENU_B).unwrap().need_rebuild.set(true);
    assert!(matches!(ui.next_step(), Step::Rebuilt(_)));
    assert_eq!(ui.queued_actions(), 1);
    match ui.next_step() {
        Step::Perform(queued) => assert_eq!((queued.action, queued.delayed), (7, true)),
        _ => panic!("an action waits"),
    }
    assert!(matches!(ui.next_step(), Step::Idle));
}

#[test]
fn an_event_that_arrives_during_a_rebuild_waits_its_turn() {
    let log = Log::default();
    let window = ControlHandle::Hwnd(10);
    let mut root = Probe::new("root", &log).with_handles(&[window]);
    root.raw_answer = Some(4);
    let mut ui = DynamicUi::new(vec![(ROOT, root)]).ok().unwrap();
    let (_, bind) = ui.build_ui();
    let raw = RawEvent { hwnd: 10, msg: 5, w: 0, l: 0 };
    // The host still has to bind: nothing is delivered.
    assert!(ui.dispatch_raw_event(raw, window, ROOT, 100).is_none());
    assert_eq!(ui.dispatch_event(&1, ControlHandle::NoHandle, window, ROOT, 101), None);
    ui.finish_bind(&all_bound(&bind.unwrap()));
    // Older work is ahead: the event goes behind it.
    assert!(ui.dispatch_raw_event(raw, window, ROOT, 102).is_none());
    log.borrow_mut().clear();
    let mut performed = Vec::new();
    settle(&mut ui, &mut performed);
    assert_eq!(performed, vec![(100, true), (101, true), (102, false)]);
    assert!(log.borrow().is_empty());
    // Nothing waits: the event is delivered at once.
    let dispatch = ui.dispatch_raw_event(raw, window, ROOT, 103).unwrap();
    assert_eq!(dispatch.result, Some(4));
    assert_eq!(ui.dispatch_event(&9, ControlHandle::NoHandle, window, ROOT, 104), Some(1));
    assert_eq!(*log.borrow(), vec!["root:raw(5)", "root:event(9)"]);
    assert_eq!(ui.queued_actions(), 0);
}

#[test]
fn delayed_actions_run_in_order_before_later_ones() {
    let log = Log::default();
    let mut ui = tray(&log);
    let (_, bind) = ui.build_ui();
    // The host has not bound the handles yet: actions have to wait.
    assert!(ui.is_delayed());
    assert!(ui.preform_action(1));
    assert!(ui.preform_action(2));
    assert_eq!(ui.maybe_preform_action(3), Err(ActionDroppedError));
    assert!(ui.preform_action_adv(4, Some(5)));
    assert!(ui.preform_action_adv(6, None));
    assert!(matches!(ui.next_step(), Step::AwaitingBind));
    ui.finish_bind(&all_bound(&bind.unwrap()));
    assert!(!ui.preform_action(8));
    assert_eq!(ui.maybe_preform_action(9), Ok(()));
    assert!(!ui.preform_action_adv(10, Some(11)));
    let mut performed = Vec::new();
    settle(&mut ui, &mut performed);
    assert_eq!(
        performed,
        vec![(1, true), (2, true), (5, true), (8, false), (9, false), (10, false)]
    );
}

#[test]
fn events_reach_the_owner_and_the_plugins_below_it() {
    let log = Log::default();
    let window = ControlHandle::Hwnd(10);
    let mut ui = DynamicUi::new(vec![
        (MENU_B, Probe::new("early", &log).under(window, ROOT)),
        (ROOT, Probe::new("root", &log)),
        (SETTINGS, Probe::new("settings", &log)),
        (MENU_A, Probe::new("menu_a", &log).under(window, ROOT)),
        (5, Probe::new("item", &log).under(ControlHandle::Menu(1, 2), MENU_A)),
        (6, Probe::new("other", &log).under(window, SETTINGS)),
    ])
    .ok()
    .unwrap();
    ui.build_ui();
    log.borrow_mut().clear();
    // The child that stands before its parent is not reached.
    assert_eq!(ui.process_event(&42, ControlHandle::NoHandle, window, ROOT), 3);
    assert_eq!(*log.borrow(), vec!["root:event(42)", "menu_a:event(42)", "item:event(42)"]);
    log.borrow_mut().clear();
    assert_eq!(ui.process_event(&1, ControlHandle::NoHandle, window, MENU_A), 2);
    assert_eq!(*log.borrow(), vec!["menu_a:event(1)", "item:event(1)"]);
    log.borrow_mut().clear();
    assert_eq!(ui.process_event(&1, ControlHandle::NoHandle, window, 99), 0);
    assert!(log.borrow().is_empty());
}

#[test]
fn a_dormant_plugin_gets_no_events_and_has_no_parent() {
    let log = Log::default();
    let window = ControlHandle::Hwnd(10);
    let menu = Probe::new("menu_a", &log).under(window, ROOT);
    menu.veto.set(true);
    let mut ui = DynamicUi::new(vec![
        (ROOT, Probe::new("root", &log)),
        (MENU_A, menu),
        (5, Probe::new("item", &log).under(window, MENU_A)),
    ])
    .ok()
    .unwrap();
    let (records, _) = ui.build_ui();
    assert_eq!(records[1].outcome, ScanOutcome::Dormant);
    assert_eq!(
        ui.plugin_info(1),
        Some(PluginInfo { id: MENU_A, parent_id: None, state: PluginState::Destroyed })
    );
    log.borrow_mut().clear();
    assert_eq!(ui.process_event(&3, ControlHandle::NoHandle, window, ROOT), 1);
    assert_eq!(ui.process_event(&3, ControlHandle::NoHandle, window, MENU_A), 0);
    assert_eq!(*log.borrow(), vec!["root:event(3)"]);
    assert_eq!(ui.with_all_ui().iter().map(|p| p.name).collect::<Vec<_>>(), vec!["root", "item"]);
    // It is not asked whether it wants to be rebuilt.
    ui.get_ui(MENU_A).unwrap().need_rebuild.set(true);
    assert!(matches!(ui.next_step(), Step::Idle));
}

#[test]
fn the_first_answer_to_a_raw_event_counts() {
    let log = Log::default();
    let window = ControlHandle::Hwnd(10);
    let mut first = Probe::new("menu_a", &log).under(window, ROOT);
    first.raw_answer = Some(11);
    let mut second = Probe::new("menu_b", &log).under(window, ROOT);
    second.raw_answer = Some(22);
    let mut ui = DynamicUi::new(vec![
        (ROOT, Probe::new("root", &log)),
        (MENU_A, first),
        (MENU_B, second),
    ])
    .ok()
    .unwrap();
    ui.build_ui();
    log.borrow_mut().clear();
    let event = RawEvent { hwnd: 10, msg: 273, w: 0, l: 0 };
    let r = ui.process_raw_event(event, window, ROOT);
    assert_eq!(r.result, Some(11));
    assert_eq!(r.conflicts, 1);
    assert_eq!(r.answers, vec![None, Some(11), Some(22)]);
    assert_eq!(*log.borrow(), vec!["root:raw(273)", "menu_a:raw(273)", "menu_b:raw(273)"]);
    let r = ui.process_raw_event(event, window, MENU_B);
    assert_eq!((r.result, r.conflicts), (Some(22), 0));
    let r = ui.process_raw_event(event, window, 99);
    assert_eq!((r.result, r.conflicts, r.answers.len()), (None, 0, 0));
}

#[test]
fn actions_of_hooks_during_delivery_are_delayed_where_recursion_is_prevented() {
    let log = Log::default();
    let mut root = Probe::new("root", &log);
    root.submit_on_event = Some(5);
    let mut ui = DynamicUi::new(vec![(ROOT, root)]).ok().unwrap();
    ui.build_ui();
    ui.process_event(&0, ControlHandle::NoHandle, ControlHandle::Hwnd(1), ROOT);
    ui.set_prevent_recursive_events(true);
    ui.process_event(&0, ControlHandle::NoHandle, ControlHandle::Hwnd(1), ROOT);
    assert!(!ui.is_delayed());
    let mut performed = Vec::new();
    settle(&mut ui, &mut performed);
    assert_eq!(performed, vec![(5, false), (5, true)]);
}

#[test]
fn a_failed_build_is_recorded_and_the_plugin_counts_as_built() {
    let log = Log::default();
    let mut broken = Probe::new("broken", &log);
    broken.fail_build = true;
    let mut ui = DynamicUi::new(vec![(ROOT, broken), (MENU_A, Probe::new("menu_a", &log))])
        .ok()
        .unwrap();
    let records = ui.initial_build();
    assert_eq!(
        records[0].outcome,
        ScanOutcome::Built {
            parent_id: None,
            error: Some(BuildError { message: "broken cannot be built".to_string() })
        }
    );
    assert_eq!(records[1].outcome, ScanOutcome::Built { parent_id: None, error: None });
    assert_eq!(ui.plugin_info(0).unwrap().state, PluginState::Built);
    assert!(log.borrow().contains(&"broken:after_build".to_string()));
}

#[test]
fn a_parent_that_is_not_registered_is_not_recorded() {
    let log = Log::default();
    let window = ControlHandle::Hwnd(10);
    let mut ui = DynamicUi::new(vec![
        (ROOT, Probe::new("root", &log).under(window, 77)),
        (MENU_A, Probe::new("self", &log).under(window, MENU_A)),
    ])
    .ok()
    .unwrap();
    let records = ui.initial_build();
    assert_eq!(records[0].outcome, ScanOutcome::Built { parent_id: None, error: None });
    assert_eq!(records[1].outcome, ScanOutcome::Built { parent_id: Some(MENU_A), error: None });
    assert!(log.borrow().contains(&"root:build(Some(Hwnd(10)))".to_string()));
}

#[test]
fn the_report_on_bound_handles_is_recorded() {
    let log = Log::default();
    let window = ControlHandle::Hwnd(10);
    let menu = ControlHandle::Menu(1, 2);
    let mut root = Probe::new("root", &log).with_handles(&[window, menu, ControlHandle::Hwnd(11)]);
    root.raw_children = true;
    let mut ui = DynamicUi::new(vec![
        (ROOT, root),
        (MENU_A, Probe::new("menu_a", &log).with_handles(&[ControlHandle::Hwnd(12)])),
    ])
    .ok()
    .unwrap();
    let (_, bind) = ui.build_ui();
    let plan = bind.unwrap();
    assert_eq!(
        plan,
        vec![
            BindRequest { plugin_id: ROOT, raw_child_events: true, window },
            BindRequest { plugin_id: ROOT, raw_child_events: true, window: menu },
            BindRequest { plugin_id: ROOT, raw_child_events: true, window: ControlHandle::Hwnd(11) },
            BindRequest {
                plugin_id: MENU_A,
                raw_child_events: false,
                window: ControlHandle::Hwnd(12)
            },
        ]
    );
    assert!(plan[0].wants_child_handlers());
    assert!(!plan[1].wants_child_handlers());
    assert!(!plan[3].wants_child_handlers());
    // The report is one entry short: the last request counts as not bound.
    let report = ui.finish_bind(&vec![
        BindOutcome { raw_bound: true, child_handlers: 3, bound: true },
        BindOutcome { raw_bound: true, child_handlers: 0, bound: true },
        BindOutcome { raw_bound: false, child_handlers: 0, bound: true },
    ]);
    assert_eq!(
        report.bind_errors,
        vec![
            BindError { plugin_id: ROOT, window: ControlHandle::Hwnd(11) },
            BindError { plugin_id: MENU_A, window: ControlHandle::Hwnd(12) },
        ]
    );
    assert_eq!(
        report.build_errors,
        vec![HandlerBuildError {
            plugin_id: MENU_A,
            window: ControlHandle::Hwnd(12),
            error: BuildError { message: "the event handler could not be bound".to_string() }
        }]
    );
    assert_eq!(
        *ui.event_handlers(),
        vec![
            EventHandlerData {
                plugin_id: ROOT,
                raw_child_events: true,
                window,
                raw_handler: RawEventHandlerData::WithChildren(3),
                bound: true,
            },
            EventHandlerData {
                plugin_id: ROOT,
                raw_child_events: true,
                window: menu,
                raw_handler: RawEventHandlerData::ParentOnly,
                bound: true,
            },
            EventHandlerData {
                plugin_id: ROOT,
                raw_child_events: true,
                window: ControlHandle::Hwnd(11),
                raw_handler: RawEventHandlerData::FailedToBind,
                bound: true,
            },
            EventHandlerData {
                plugin_id: MENU_A,
                raw_child_events: false,
                window: ControlHandle::Hwnd(12),
                raw_handler: RawEventHandlerData::FailedToBind,
                bound: false,
            },
        ]
    );
    assert!(!ui.is_delayed());
    // Without a request there is nothing to report on.
    let report = ui.finish_bind(&vec![]);
    assert!(report.bind_errors.is_empty() && report.build_errors.is_empty());
    assert_eq!(ui.event_handlers().len(), 4);
    // What went wrong is on record: nothing is asked for again.
    assert_eq!(ui.bind_event_handlers(), None);
    assert!(matches!(ui.next_step(), Step::Idle));
    assert!(ui.take_unbound().is_empty());
    assert_eq!(ui.event_handlers().len(), 4);
}

#[test]
fn teardown_waits_for_the_pass_and_then_tears_every_plugin_down() {
    let log = Log::default();
    let mut ui = built_tray(&log);
    ui.get_ui(ROOT).unwrap().need_rebuild.set(true);
    assert!(matches!(ui.next_step(), Step::Rebuilt(_)));
    // In the middle of the pass teardown only forgets the handlers.
    ui.destroy_ui();
    assert!(ui.is_destroy_requested());
    assert_eq!(ui.plugin_info(0).unwrap().state, PluginState::Built);
    let mut steps = 0;
    loop {
        match ui.next_step() {
            Step::Rebuilt(rebuilt) => {
                if let Some(plan) = rebuilt.bind {
                    ui.finish_bind(&all_bound(&plan));
                }
            }
            Step::Destroyed => break,
            _ => panic!("teardown comes right after the pass"),
        }
        steps += 1;
        assert!(steps < 10);
    }
    for ix in 0..4 {
        assert_eq!(ui.plugin_info(ix).unwrap().state, PluginState::Destroyed);
    }
    assert_eq!(ui.plugin_info(2).unwrap().parent_id, Some(ROOT));
    assert!(ui.event_handlers().is_empty());
    assert!(!ui.take_unbound().is_empty());
    assert!(ui.with_all_ui().is_empty());
    assert!(matches!(ui.next_step(), Step::Destroyed));
}

#[test]
fn a_hook_can_ask_for_teardown() {
    let log = Log::default();
    let mut root = Probe::new("root", &log);
    root.destroy_on_event = true;
    let mut ui = DynamicUi::new(vec![(ROOT, root)]).ok().unwrap();
    ui.build_ui();
    assert!(!ui.is_destroy_requested());
    ui.process_event(&0, ControlHandle::NoHandle, ControlHandle::Hwnd(1), ROOT);
    assert!(ui.is_destroy_requested());
    log.borrow_mut().clear();
    assert!(matches!(ui.next_step(), Step::Destroyed));
    assert_eq!(*log.borrow(), vec!["root:before_rebuild"]);
}

#[test]
fn a_pass_that_never_ends_is_cut_short() {
    let log = Log::default();
    let mut root = Probe::new("root", &log).under(ControlHandle::Hwnd(1), ROOT);
    root.keep_asking = true;
    let mut ui = DynamicUi::new(vec![(ROOT, root)]).ok().unwrap();
    ui.build_ui();
    ui.get_ui(ROOT).unwrap().need_rebuild.set(true);
    // The plugin is its own parent: every rebuild puts it back into the
    // queue.
    let (run, _) = ui.run(5);
    assert!(run.last.is_none());
    assert_eq!(run.walks.len(), 5);
    assert_eq!(run.walks[0].invalidated, vec![ROOT]);
    assert!(ui.is_delayed());
    assert_eq!(*ui.waiting_rebuilds(), vec![ROOT]);
}

#[test]
fn a_run_ends_with_the_first_step_that_needs_the_host() {
    let log = Log::default();
    let mut ui = built_tray(&log);
    ui.get_ui(ROOT).unwrap().need_rebuild.set(true);
    ui.preform_action(3);
    let (run, _) = ui.run(100);
    assert!(run.walks.is_empty());
    assert!(matches!(run.last, Some(Step::Perform(_))));
    let (run, _) = ui.run(100);
    assert_eq!(run.walks.len(), 1);
    match run.last {
        Some(Step::Rebuilt(rebuilt)) => assert!(rebuilt.bind.is_some()),
        _ => panic!("the handles changed"),
    }
}

#[test]
fn plugins_can_be_looked_up_and_visited() {
    let log = Log::default();
    let ui = built_tray(&log);
    assert_eq!(ui.get_ui(MENU_A).map(|p| p.name), Some("menu_a"));
    assert!(ui.get_ui(99).is_none());
    assert_eq!(ui.ui_list().position(MENU_B), Some(3));
    assert!(ui.ui_list().contains(ROOT));
    let seen = RefCell::new(Vec::new());
    ui.for_each_ui(|p: &Probe| seen.borrow_mut().push(p.name));
    assert_eq!(*seen.borrow(), vec!["root", "settings", "menu_a", "menu_b"]);
}

#[test]
fn paused_events_come_back_as_they_were() {
    let log = Log::default();
    let mut ui = built_tray(&log);
    assert_eq!(ui.with_paused_events(|_| 5), 5);
    assert!(!ui.is_delayed());
    assert_eq!(ui.queued_actions(), 0);
}

#[test]
fn actions_of_a_paused_section_wait_and_run_first_in_order() {
    let log = Log::default();
    let mut ui = built_tray(&log);
    let answer = ui.with_paused_events(|actions| {
        actions.submit(1);
        actions.submit(2);
        "done"
    });
    assert_eq!(answer, "done");
    // Both wait; neither has run, and the pause is over.
    assert_eq!(ui.queued_actions(), 2);
    assert!(!ui.is_delayed());
    assert!(!ui.preform_action(3));
    let mut performed = Vec::new();
    settle(&mut ui, &mut performed);
    assert_eq!(performed, vec![(1, true), (2, true), (3, false)]);
    assert_eq!(ui.queued_actions(), 0);
}

#[test]
fn a_paused_section_can_ask_for_teardown() {
    let log = Log::default();
    let mut ui = built_tray(&log);
    ui.with_paused_events(|actions| actions.request_destroy());
    assert!(ui.is_destroy_requested());
    assert!(matches!(ui.next_step(), Step::Destroyed));
}

#[test]
fn a_reference_keeps_what_it_was_first_given() {
    let first = Rc::new(1);
    let second = Rc::new(2);
    let mut r = DynamicUiRef::new();
    assert!(!r.is_set());
    assert!(r.get().is_none());
    r.set(&first);
    assert!(r.is_set());
    r.set(&second);
    assert_eq!(r.get().map(|v| *v), Some(1));
    assert!(Rc::ptr_eq(&r.get().unwrap(), &first));
}

#[test]
fn a_reference_does_not_keep_its_target_alive() {
    let shared = Rc::new(String::from("tray"));
    let mut r = DynamicUiRef::new();
    r.set(&shared);
    assert_eq!(Rc::strong_count(&shared), 1);
    let second = r.get().expect("the target is alive");
    assert!(Rc::ptr_eq(&second, &shared));
    drop(shared);
    // One strong pointer is left.
    assert!(r.is_set());
    assert_eq!(r.get().map(|v| v.len()), Some(4));
    drop(second);
    // None is left: the reference is as good as empty, and stays so.
    assert!(!r.is_set());
    assert!(r.get().is_none());
    r.set(&Rc::new(String::from("other")));
    assert!(r.get().is_none());
}

/// A plugin that says no more than it has to.
#[derive(Default)]
struct Plain {
    builds: u32,
    parent: Option<Kind>,
}

impl DynamicUiHooks for Plain {
    type Event = ();
    type Action = ();

    fn before_build(
        &mut self,
        _ui: &UiList<Self>,
        _actions: &mut Outbox<()>,
        _should_build: &mut bool,
    ) -> Option<(ControlHandle, Kind)> {
        self.parent.map(|kind| (ControlHandle::NoHandle, kind))
    }

    fn build(&mut self, _parent: Option<ControlHandle>) -> Result<(), BuildError> {
        self.builds += 1;
        Ok(())
    }
}

#[test]
fn a_plugin_that_keeps_to_the_defaults() {
    let mut ui = DynamicUi::new(vec![
        (1, Plain::default()),
        (2, Plain { builds: 5, parent: Some(1) }),
        (3, Plain { builds: 7, parent: Some(1) }),
    ])
    .ok()
    .unwrap();
    let (records, bind) = ui.build_ui();
    assert_eq!(records.len(), 3);
    // No handles: nothing to bind.
    assert_eq!(bind, None);
    assert!(ui.all_handles().is_empty());
    assert_eq!(ui.get_ui(2).unwrap().builds, 6);
    // No plugin ever asks for a rebuild.
    assert!(matches!(ui.next_step(), Step::Idle));
    // Events are taken without a word.
    assert_eq!(ui.process_event(&(), ControlHandle::NoHandle, ControlHandle::NoHandle, 1), 3);
    let raw = ui.process_raw_event(
        RawEvent { hwnd: 0, msg: 0, w: 0, l: 0 },
        ControlHandle::NoHandle,
        1,
    );
    assert_eq!((raw.result, raw.conflicts), (None, 0));
    // Teardown puts every plugin back into its default state.
    ui.destroy_ui();
    assert_eq!(ui.get_ui(2).unwrap().builds, 0);
    assert_eq!(ui.get_ui(2).unwrap().parent, None);
    assert_eq!(ui.plugin_info(1).unwrap().state, PluginState::Destroyed);
}

fn request(plugin_id: Kind, raw_child_events: bool, window: ControlHandle) -> BindRequest {
    BindRequest { plugin_id, raw_child_events, window }
}

#[test]
fn the_handles_come_plugin_after_plugin_as_they_were_reported() {
    let log = Log::default();
    let window = ControlHandle::Hwnd(10);
    let mut root = Probe::new("root", &log)
        .with_handles(&[window, ControlHandle::Hwnd(11)]);
    root.raw_children = true;
    let dormant = Probe::new("menu_a", &log)
        .under(window, ROOT)
        .with_handles(&[ControlHandle::Hwnd(99)]);
    dormant.veto.set(true);
    let timer = Probe::new("timer", &log)
        .under(window, ROOT)
        .with_handles(&[ControlHandle::Timer(10, 4)]);
    let mut ui = DynamicUi::new(vec![
        (ROOT, root),
        (MENU_A, dormant),
        (SETTINGS, Probe::new("settings", &log).under(window, ROOT)),
        (7, timer),
    ])
    .ok()
    .unwrap();
    // Before anything is built no handle is wanted.
    assert_eq!(ui.all_handles(), vec![]);
    assert_eq!(ui.bind_event_handlers(), None);
    ui.initial_build();
    let wanted = vec![
        request(ROOT, true, window),
        request(ROOT, true, ControlHandle::Hwnd(11)),
        request(7, false, ControlHandle::Timer(10, 4)),
    ];
    assert_eq!(ui.all_handles(), wanted);
    // Nothing is bound yet, so all of them have to be bound.
    assert_eq!(ui.bind_event_handlers(), Some(wanted.clone()));
    assert!(ui.is_delayed());
    let report = ui.finish_bind(&all_bound(&wanted));
    assert!(report.bind_errors.is_empty() && report.build_errors.is_empty());
    // Now the bound handles are the wanted ones.
    assert_eq!(ui.all_handles(), wanted);
    assert_eq!(ui.bind_event_handlers(), None);
    assert!(!ui.is_delayed());
}

/// A plugin that adds one handle for every plugin of the list to its own.
#[derive(Default)]
struct Extender {
    first: isize,
}

impl DynamicUiHooks for Extender {
    type Event = ();
    type Action = ();

    fn before_build(
        &mut self,
        _ui: &UiList<Self>,
        _actions: &mut Outbox<()>,
        _should_build: &mut bool,
    ) -> Option<(ControlHandle, Kind)> {
        None
    }

    fn build(&mut self, _parent: Option<ControlHandle>) -> Result<(), BuildError> {
        Ok(())
    }

    fn handles(&self) -> Vec<ControlHandle> {
        vec![ControlHandle::Hwnd(self.first)]
    }

    fn after_handles(&self, ui: &UiList<Self>, handles: &mut Vec<ControlHandle>) {
        for ix in 0..ui.len() {
            handles.push(ControlHandle::Notice(self.first, ui.info(ix).id as u32));
        }
    }

    fn need_raw_events_for_children(&self) -> bool {
        self.first > 50
    }
}

#[test]
fn handles_that_are_added_afterwards_count_too() {
    let mut ui = DynamicUi::new(vec![(8, Extender { first: 40 }), (9, Extender { first: 60 })])
        .ok()
        .unwrap();
    ui.initial_build();
    assert_eq!(
        reported_handles(ui.ui_list(), 0),
        (
            vec![
                ControlHandle::Hwnd(40),
                ControlHandle::Notice(40, 8),
                ControlHandle::Notice(40, 9)
            ],
            false
        )
    );
    assert_eq!(
        ui.all_handles(),
        vec![
            request(8, false, ControlHandle::Hwnd(40)),
            request(8, false, ControlHandle::Notice(40, 8)),
            request(8, false, ControlHandle::Notice(40, 9)),
            request(9, true, ControlHandle::Hwnd(60)),
            request(9, true, ControlHandle::Notice(60, 8)),
            request(9, true, ControlHandle::Notice(60, 9)),
        ]
    );
}

#[test]
fn one_request_is_made_for_each_handle() {
    let mut all = vec![request(1, false, ControlHandle::Hwnd(1))];
    push_requests(&mut all, 2, true, &vec![ControlHandle::Hwnd(5), ControlHandle::Menu(5, 6)]);
    push_requests(&mut all, 3, false, &vec![]);
    assert_eq!(
        all,
        vec![
            request(1, false, ControlHandle::Hwnd(1)),
            request(2, true, ControlHandle::Hwnd(5)),
            request(2, true, ControlHandle::Menu(5, 6)),
        ]
    );
}

#[test]
fn the_plugins_that_ask_for_a_rebuild_are_named_in_list_order() {
    let log = Log::default();
    let mut ui = built_tray(&log);
    ui.get_ui(MENU_B).unwrap().need_rebuild.set(true);
    ui.get_ui(SETTINGS).unwrap().need_rebuild.set(true);
    match ui.next_step() {
        Step::Rebuilt(rebuilt) => {
            assert_eq!(rebuilt.invalidated, vec![SETTINGS, MENU_B]);
            assert_eq!(rebuilt.target, SETTINGS);
        }
        _ => panic!("two plugins asked for a rebuild"),
    }
}

#[test]
fn the_hooks_of_a_rebuild_run_in_order_on_a_built_plugin() {
    let log = Log::default();
    let others = tray(&log);
    let window = ControlHandle::Hwnd(30);
    let mut plugin = Probe::new("extra", &log)
        .under(window, ROOT)
        .with_handles(&[ControlHandle::Hwnd(31)]);
    plugin.submit_on_build = Some(7);
    let r = rebuild_hooks(plugin, PluginState::Built, others.ui_list());
    assert_eq!(
        *log.borrow(),
        vec![
            "extra:before_rebuild",
            "extra:before_build",
            "extra:build(Some(Hwnd(30)))",
            "extra:after_build"
        ]
    );
    assert_eq!(r.given_up, vec![ControlHandle::Hwnd(31)]);
    assert!(r.should_build);
    assert_eq!(r.parent, Some((window, ROOT)));
    assert_eq!(r.built, Some(Ok(())));
    assert_eq!(r.outbox.actions, vec![7]);
    assert!(!r.outbox.destroy);
    assert_eq!(r.ui.name, "extra");
}

#[test]
fn a_plugin_that_was_not_built_is_not_told_of_a_teardown() {
    let log = Log::default();
    let others = tray(&log);
    let plugin = Probe::new("extra", &log).with_handles(&[ControlHandle::Hwnd(31)]);
    let r = rebuild_hooks(plugin, PluginState::Destroyed, others.ui_list());
    assert_eq!(*log.borrow(), vec!["extra:before_build", "extra:build(None)", "extra:after_build"]);
    assert!(r.given_up.is_empty());
    assert_eq!(r.built, Some(Ok(())));
}

#[test]
fn a_plugin_that_declines_is_not_built() {
    let log = Log::default();
    let others = tray(&log);
    let mut plugin = Probe::new("extra", &log).under(ControlHandle::Hwnd(30), ROOT);
    plugin.veto.set(true);
    plugin.fail_build = true;
    let r = rebuild_hooks(plugin, PluginState::Built, others.ui_list());
    assert_eq!(*log.borrow(), vec!["extra:before_rebuild", "extra:before_build"]);
    assert!(!r.should_build);
    assert_eq!(r.built, None);
    // What the hook named is still on record; the engine does not use it.
    assert_eq!(r.parent, Some((ControlHandle::Hwnd(30), ROOT)));
}

#[test]
fn a_failed_build_is_reported_and_followed_by_after_build() {
    let log = Log::default();
    let others = tray(&log);
    let mut plugin = Probe::new("extra", &log);
    plugin.fail_build = true;
    let r = rebuild_hooks(plugin, PluginState::Destroyed, others.ui_list());
    assert_eq!(*log.borrow(), vec!["extra:before_build", "extra:build(None)", "extra:after_build"]);
    assert_eq!(
        r.built,
        Some(Err(BuildError { message: String::from("extra cannot be built") }))
    );
}

#[test]
fn one_plugin_takes_an_event_and_answers_a_raw_event() {
    let log = Log::default();
    let mut root = Probe::new("root", &log);
    root.raw_answer = Some(4);
    root.submit_on_event = Some(9);
    let mut ui = DynamicUi::new(vec![(ROOT, root), (MENU_A, Probe::new("menu_a", &log))])
        .ok()
        .unwrap();
    ui.initial_build();
    log.borrow_mut().clear();
    let (answer, outbox) = deliver_raw(
        ui.ui_list(),
        0,
        RawEvent { hwnd: 1, msg: 2, w: 3, l: 4 },
        ControlHandle::Hwnd(1),
    );
    assert_eq!(answer, Some(4));
    assert!(outbox.actions.is_empty());
    let (answer, _) = deliver_raw(
        ui.ui_list(),
        1,
        RawEvent { hwnd: 1, msg: 2, w: 3, l: 4 },
        ControlHandle::Hwnd(1),
    );
    assert_eq!(answer, None);
    let outbox = deliver(ui.ui_list(), 0, &5, ControlHandle::NoHandle, ControlHandle::Hwnd(1));
    assert_eq!(outbox.actions, vec![9]);
    assert!(log.borrow().contains(&String::from("root:event(5)")));
    // Nothing reached the engine's queue: the caller holds the outbox.
    assert_eq!(ui.queued_actions(), 0);
}
