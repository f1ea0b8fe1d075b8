//! A reactive data-binding engine for declarative user interfaces.
//!
//! Components render typed data into markup mounted at host-document nodes.
//! The engine keeps the application state, records which views read which
//! state keys, schedules re-renders when observed state changes, and decides
//! which event listeners must be attached after a view's markup is replaced.
//! The host document itself (queries, markup patches, listeners) is driven by
//! the caller, which hands node handles back to the engine as plain integers.
pub mod binding;
pub mod context;
pub mod events;
pub mod handle;
pub mod key;
pub mod laws;
pub mod props;
pub mod state;
pub mod store;

pub use binding::{Binding, Handler, Listen};
pub use context::AppContext;
pub use events::EventType;
pub use handle::{Event, ViewHandle};
pub use key::TypedKey;
pub use props::lookup_props;
pub use state::{AppState, RenderJob, StateError};
