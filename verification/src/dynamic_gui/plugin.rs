//! What the engine keeps about a plugin, and what a plugin has to offer.

use vstd::prelude::*;
use super::actions::Outbox;
use super::handle::{ControlHandle, RawEvent};

verus! {

/// Stable identifier of a plugin's concrete type. Parents are named by it and
/// plugins are looked up by it.
pub type Kind = u64;

/// Whether a plugin currently has its native resources.
#[derive(Clone, Copy, PartialEq, Eq, Structural, Debug)]
pub enum PluginState {
    Destroyed,
    Built,
}

/// The engine's bookkeeping for one plugin.
#[derive(Clone, Copy, PartialEq, Eq, Structural, Debug)]
pub struct PluginInfo {
    pub id: Kind,
    /// `None` for a root plugin and for one that declined to be built.
    pub parent_id: Option<Kind>,
    pub state: PluginState,
}

/// A plugin failed to construct its native resources.
#[derive(Clone, PartialEq, Eq, Debug)]
pub struct BuildError {
    pub message: String,
}

/// No two entries have the same id.
pub open spec fn ids_unique(infos: Seq<PluginInfo>) -> bool {
    forall|i: int, j: int| 0 <= i < j < infos.len() ==> infos[i].id != infos[j].id
}

/// Some entry has the id `kind`.
pub open spec fn is_registered(infos: Seq<PluginInfo>, kind: Kind) -> bool {
    exists|i: int| 0 <= i < infos.len() && #[trigger] infos[i].id == kind
}

/// Every parent that an entry names is the id of an entry.
pub open spec fn parents_registered(infos: Seq<PluginInfo>) -> bool {
    forall|i: int|
        0 <= i < infos.len() ==> match (#[trigger] infos[i]).parent_id {
            Some(p) => is_registered(infos, p),
            None => true,
        }
}

/// The ids of the entries, in the order of the list.
pub open spec fn ids_of(infos: Seq<PluginInfo>) -> Seq<Kind> {
    Seq::new(infos.len(), |i: int| infos[i].id)
}

/// The capability set of a plugin.
///
/// The engine owns every plugin and calls these hooks on it. While a hook
/// that takes `&mut self` runs, the plugin is not part of `ui`; the other
/// plugins are, in their usual order. A hook never gets mutable access to the
/// list. Work that a hook wants done goes into `actions` and runs when the
/// engine is free to run it, never while the hook is still running. The hooks
/// of one rebuild of a plugin share one outbox, which goes from hook to hook.
///
/// Nothing is asked of a plugin's hooks. What is stated of a hook below says
/// what it does for a plugin that does not write it itself.
pub trait DynamicUiHooks: Sized + Default {
    /// The processed events that the toolkit delivers.
    type Event;

    /// The units of work that the host and the plugins can submit.
    type Action;

    /// Called before the plugin is built or rebuilt. Setting `should_build`
    /// to `false` leaves the plugin dormant. The result names the native
    /// parent to build under and the plugin that owns it.
    fn before_build(
        &mut self,
        ui: &UiList<Self>,
        actions: &mut Outbox<Self::Action>,
        should_build: &mut bool,
    ) -> Option<(ControlHandle, Kind)>;

    /// Constructs the native resources under `parent`.
    fn build(&mut self, parent: Option<ControlHandle>) -> Result<(), BuildError>;

    /// Called right after `build`, whether or not it succeeded.
    fn after_build(&mut self, ui: &UiList<Self>, actions: &mut Outbox<Self::Action>)
        default_ensures
            *final(self) == *old(self),
            *final(actions) == *old(actions),
    {
    }

    /// The native resources that should receive events. A built plugin has
    /// to keep them valid until its `before_rebuild` is called.
    ///
    /// Unless a plugin says otherwise it has none.
    fn handles(&self) -> (r: Vec<ControlHandle>)
        default_ensures
            r@ == Seq::<ControlHandle>::empty(),
    {
        Vec::new()
    }

    /// Called with the result of `handles`, which it may extend. Unless a
    /// plugin says otherwise the handles stay as they are.
    fn after_handles(&self, ui: &UiList<Self>, handles: &mut Vec<ControlHandle>)
        default_ensures
            *final(handles) == *old(handles),
    {
    }

    /// Whether raw handlers are wanted on every child window of each handle.
    /// Unless a plugin says otherwise they are not.
    fn need_raw_events_for_children(&self) -> (r: bool)
        default_ensures
            !r,
    {
        false
    }

    /// Delivers a processed event that arrived on `handle`.
    fn dispatch_event(&self, event: &Self::Event, handle: ControlHandle) {
    }

    /// Called right after `dispatch_event`. `window` is the bound handle that
    /// the event came through.
    fn after_dispatch(
        &self,
        ui: &UiList<Self>,
        actions: &mut Outbox<Self::Action>,
        event: &Self::Event,
        handle: ControlHandle,
        window: ControlHandle,
    )
        default_ensures
            *final(actions) == *old(actions),
    {
    }

    /// Delivers a raw event. A result other than `None` is the answer to the
    /// native message. Unless a plugin says otherwise it gives no answer and
    /// submits nothing.
    fn dispatch_raw_event(
        &self,
        ui: &UiList<Self>,
        actions: &mut Outbox<Self::Action>,
        event: RawEvent,
        window: ControlHandle,
    ) -> (r: Option<isize>)
        default_ensures
            r.is_none(),
            *final(actions) == *old(actions),
    {
        None
    }

    /// Whether the plugin has to be torn down and built again. Built plugins
    /// are asked after every action, once no older action waits. Unless a
    /// plugin says otherwise it never has to.
    fn need_rebuild(&self, ui: &UiList<Self>) -> (r: bool)
        default_ensures
            !r,
    {
        false
    }

    /// Whether the plugin's place among the children of its parent matters.
    /// Unless a plugin says otherwise it does.
    fn is_ordered_in_parent(&self) -> (r: bool)
        default_ensures
            r,
    {
        true
    }

    /// Called before a built plugin is rebuilt or torn down. Unless a plugin
    /// says otherwise it goes back to its default state and submits nothing.
    fn before_rebuild(&mut self, ui: &UiList<Self>, actions: &mut Outbox<Self::Action>)
        default_ensures
            call_ensures(Self::default, (), *final(self)),
            *final(actions) == *old(actions),
    {
        *self = Self::default();
    }
}

/// A plugin together with the engine's bookkeeping for it.
pub struct PluginData<C> {
    pub ui: C,
    pub info: PluginInfo,
}

/// The ordered list of plugins.
///
/// This is the view of the engine that hooks get: they can look plugins up
/// and read them, and nothing else.
pub struct UiList<C> {
    items: Vec<PluginData<C>>,
}

impl<C> UiList<C> {
    /// The bookkeeping of every entry, in list order.
    pub closed spec fn infos(&self) -> Seq<PluginInfo> {
        Seq::new(self.items@.len(), |i: int| self.items@[i].info)
    }

    /// The plugins themselves, in list order.
    pub closed spec fn uis(&self) -> Seq<C> {
        Seq::new(self.items@.len(), |i: int| self.items@[i].ui)
    }

    /// There is one plugin for each entry of the bookkeeping.
    pub proof fn lemma_one_length(&self)
        ensures
            self.infos().len() == self.uis().len(),
    {
    }

    /// The number of entries.
    pub fn len(&self) -> (r: usize)
        ensures
            r == self.infos().len(),
            r == self.uis().len(),
    {
        self.items.len()
    }

    /// The bookkeeping of the entry at `ix`.
    pub fn info(&self, ix: usize) -> (r: PluginInfo)
        requires
            ix < self.infos().len(),
        ensures
            r == self.infos()[ix as int],
    {
        self.items[ix].info
    }

    /// The plugin at `ix`.
    pub fn ui_at(&self, ix: usize) -> (r: &C)
        requires
            ix < self.infos().len(),
        ensures
            *r == self.uis()[ix as int],
    {
        &self.items[ix].ui
    }

    /// The index of the first entry with the id `kind`.
    pub fn position(&self, kind: Kind) -> (r: Option<usize>)
        ensures
            match r {
                Some(ix) => ix < self.infos().len() && self.infos()[ix as int].id == kind
                    && forall|j: int| 0 <= j < ix ==> self.infos()[j].id != kind,
                None => !is_registered(self.infos(), kind),
            },
    {
        let mut ix: usize = 0;
        while ix < self.items.len()
            invariant
                ix <= self.items@.len(),
                forall|j: int| 0 <= j < ix ==> self.infos()[j].id != kind,
            decreases self.items@.len() - ix,
        {
            if self.items[ix].info.id == kind {
                return Some(ix);
            }
            ix = ix + 1;
        }
        None
    }

    /// Whether some entry has the id `kind`.
    pub fn contains(&self, kind: Kind) -> (r: bool)
        ensures
            r == is_registered(self.infos(), kind),
    {
        self.position(kind).is_some()
    }

    /// Read access to the plugin with the id `kind`. There is none while that
    /// plugin is being rebuilt, and none if no such plugin was registered.
    ///
    /// The plugin that is found may be dormant.
    pub fn get_ui(&self, kind: Kind) -> (r: Option<&C>)
        ensures
            r.is_some() == is_registered(self.infos(), kind),
            match r {
                Some(ui) => exists|ix: int|
                    0 <= ix < self.infos().len() && #[trigger] self.infos()[ix].id == kind
                        && *ui == self.uis()[ix] && forall|j: int|
                        0 <= j < ix ==> self.infos()[j].id != kind,
                None => true,
            },
    {
        match self.position(kind) {
            Some(ix) => {
                let ui = &self.items[ix].ui;
                assert(self.infos()[ix as int].id == kind);
                Some(ui)
            },
            None => None,
        }
    }

    /// A list of the given entries.
    pub(crate) fn from_items(items: Vec<PluginData<C>>) -> (r: Self)
        ensures
            r.infos() == Seq::new(items@.len(), |i: int| items@[i].info),
            r.uis() == Seq::new(items@.len(), |i: int| items@[i].ui),
    {
        UiList { items }
    }

    /// Takes the entry at `ix` out of the list. The other entries keep their
    /// order.
    pub(crate) fn detach(&mut self, ix: usize) -> (r: PluginData<C>)
        requires
            ix < old(self).infos().len(),
        ensures
            r.info == old(self).infos()[ix as int],
            r.ui == old(self).uis()[ix as int],
            final(self).infos() == old(self).infos().remove(ix as int),
            final(self).uis() == old(self).uis().remove(ix as int),
    {
        let r = self.items.remove(ix);
        proof {
            assert(final(self).infos() =~= old(self).infos().remove(ix as int));
            assert(final(self).uis() =~= old(self).uis().remove(ix as int));
        }
        r
    }

    /// Puts an entry into the list at `ix`.
    pub(crate) fn attach(&mut self, ix: usize, data: PluginData<C>)
        requires
            ix <= old(self).infos().len(),
        ensures
            final(self).infos() == old(self).infos().insert(ix as int, data.info),
            final(self).uis() == old(self).uis().insert(ix as int, data.ui),
    {
        self.items.insert(ix, data);
        proof {
            assert(final(self).infos() =~= old(self).infos().insert(ix as int, data.info));
            assert(final(self).uis() =~= old(self).uis().insert(ix as int, data.ui));
        }
    }
}

} // verus!
