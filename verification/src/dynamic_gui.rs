//! Compose many user interface plugins into one rebuildable interface.
//!
//! A [`DynamicUi`] owns an ordered list of plugins. Every plugin implements
//! [`DynamicUiHooks`]. The engine never calls a hook while the plugin is part
//! of the list: it takes the plugin out, calls the hook with a shared view of
//! the remaining list, and puts the plugin back where it was.

pub mod actions;
pub mod answers;
pub mod dispatch;
pub mod engine;
pub mod handle;
pub mod handlers;
pub mod hook_laws;
pub mod laws;
pub mod pass_laws;
pub mod plugin;
pub mod rebuild;
pub mod state;
pub mod ui_ref;
pub mod weak;

pub use actions::{ActionDroppedError, ActionQueue, Outbox, QueuedAction};
pub use dispatch::RawDispatch;
pub use engine::{DuplicatePluginError, DynamicUi, Rebuilt, Run, Step};
pub use handle::{ControlHandle, RawEvent};
pub use handlers::{
    BindError, BindOutcome, BindReport, BindRequest, EventHandlerData, HandlerBuildError,
    RawEventHandlerData,
};
pub use state::UiState;
pub use ui_ref::DynamicUiRef;
pub use rebuild::{ScanOutcome, ScanRecord};
pub use plugin::{BuildError, DynamicUiHooks, Kind, PluginData, PluginInfo, PluginState, UiList};
