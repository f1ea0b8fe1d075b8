use vstd::prelude::*;

use crate::context::AppContext;
use crate::binding::{fresh_listens, BindingView, Handler, HandlerView, Listen};
use crate::events::EventType;
use crate::key::{KeyView, TypedKey};
use crate::state::{AppState, AppStateView, StateError};

verus! {

/// The handle of one mounted component: its view key and its host node.
#[derive(Clone, Debug)]
pub struct ViewHandle {
    key: TypedKey,
    node: u64,
}

impl View for ViewHandle {
    type V = (KeyView, u64);

    closed spec fn view(&self) -> (KeyView, u64) {
        (self.key@, self.node)
    }
}

impl ViewHandle {
    /// The handle of the view under `key`, mounted at `node`.
    pub fn new(key: TypedKey, node: u64) -> (r: ViewHandle)
        ensures
            r@ == (key@, node),
    {
        ViewHandle { key, node }
    }

    /// The view key.
    pub fn key(&self) -> (r: &TypedKey)
        ensures
            r@ == self@.0,
    {
        &self.key
    }

    /// The host node the view is mounted at.
    pub fn node(&self) -> (r: u64)
        ensures
            r == self@.1,
    {
        self.node
    }

    /// Registers a root-level handler: `callback` runs when `event` fires on
    /// the view's own node. Returns the listener to attach; since the node
    /// survives re-renders, the handler is never attached again.
    pub fn on<V, C>(&self, app: &mut AppState<V, C>, event: EventType, callback: u64) -> (r: Result<Listen, StateError>)
        requires
            old(app).wf(),
        ensures
            final(app).wf(),
            !old(app).view().bindings.contains_key(self@.0) ==> r == Err::<Listen, StateError>(StateError::MissingKey)
                && final(app).view() == old(app).view(),
            old(app).view().bindings.contains_key(self@.0) ==> {
                let b = old(app).view().bindings[self@.0];
                &&& r == Ok::<Listen, StateError>(Listen { node: self@.1, event, callback, index: 0 })
                &&& final(app).view() == (AppStateView {
                    bindings: old(app).view().bindings.insert(
                        self@.0,
                        BindingView {
                            handlers: b.handlers.push(HandlerView {
                                event_type: event,
                                selector: None,
                                callback,
                                registered: seq![self@.1],
                            }),
                            ..b
                        },
                    ),
                    ..old(app).view()
                })
            },
    {
        let mut registered: Vec<u64> = Vec::new();
        registered.push(self.node);
        assert(registered@ =~= seq![self.node]);
        match app.add_handler(&self.key, event, None, callback, registered) {
            Ok(()) => Ok(Listen { node: self.node, event, callback, index: 0 }),
            Err(e) => Err(e),
        }
    }

    /// Registers a handler scoped to the descendants matching `selector`;
    /// `matches` are the nodes it matches now. Returns one listener for each
    /// match, carrying its index. After each re-render the handler follows
    /// the nodes the selector matches then.
    pub fn on_each<V, C>(
        &self,
        app: &mut AppState<V, C>,
        event: EventType,
        selector: &str,
        callback: u64,
        matches: Vec<u64>,
    ) -> (r: Result<Vec<Listen>, StateError>)
        requires
            old(app).wf(),
        ensures
            final(app).wf(),
            !old(app).view().bindings.contains_key(self@.0) ==> r == Err::<Vec<Listen>, StateError>(StateError::MissingKey)
                && final(app).view() == old(app).view(),
            old(app).view().bindings.contains_key(self@.0) ==> {
                let b = old(app).view().bindings[self@.0];
                &&& r is Ok
                &&& r.unwrap()@ == fresh_listens(Seq::empty(), matches@, event, callback)
                &&& final(app).view() == (AppStateView {
                    bindings: old(app).view().bindings.insert(
                        self@.0,
                        BindingView {
                            handlers: b.handlers.push(HandlerView {
                                event_type: event,
                                selector: Some(selector@),
                                callback,
                                registered: matches@,
                            }),
                            ..b
                        },
                    ),
                    ..old(app).view()
                })
            },
    {
        let mut h = Handler { event_type: event, selector: Some(selector.to_owned()), callback, registered: Vec::new() };
        let listens = h.reattach(&matches);
        let Handler { event_type, selector, callback, registered } = h;
        match app.add_handler(&self.key, event_type, selector, callback, registered) {
            Ok(()) => Ok(listens),
            Err(e) => Err(e),
        }
    }

    /// The view's data.
    pub fn data<'a, V, C>(&self, app: &'a AppState<V, C>) -> (r: Result<&'a C, StateError>)
        requires
            app.wf(),
        ensures
            !app.view().bindings.contains_key(self@.0) ==> r == Err::<&C, StateError>(StateError::MissingKey),
            app.view().bindings.contains_key(self@.0) && app.view().bindings[self@.0].component.is_none()
                ==> r == Err::<&C, StateError>(StateError::Reentrancy),
            app.view().bindings.contains_key(self@.0) && app.view().bindings[self@.0].component.is_some()
                ==> r is Ok && Some(*r.unwrap()) == app.view().bindings[self@.0].component,
    {
        app.component(&self.key)
    }

    /// A handle through which the view's data can be changed. The view is
    /// queued for re-rendering before the handle is handed out.
    pub fn data_mut<'a, V, C>(&self, app: &'a mut AppState<V, C>) -> (r: Result<&'a mut C, StateError>)
        requires
            old(app).wf(),
        ensures
            match r {
                Ok(c) => {
                    let b = old(app).view().bindings[self@.0];
                    &&& old(app).view().bindings.contains_key(self@.0)
                    &&& b.component == Some(*c)
                    &&& final(app).wf()
                    &&& final(app).view() == (AppStateView {
                        bindings: old(app).view().bindings.insert(
                            self@.0,
                            BindingView { component: Some(*final(c)), ..b },
                        ),
                        queue: old(app).view().queue.push(self@.0),
                        ..old(app).view()
                    })
                },
                Err(e) => {
                    &&& final(app).wf()
                    &&& final(app).view() == old(app).view()
                    &&& e == if old(app).view().bindings.contains_key(self@.0) {
                        StateError::Reentrancy
                    } else {
                        StateError::MissingKey
                    }
                    &&& old(app).view().bindings.contains_key(self@.0)
                        ==> old(app).view().bindings[self@.0].component.is_none()
                },
            },
    {
        match app.binding(&self.key) {
            Some(b) => {
                if b.is_rendering() {
                    return Err(StateError::Reentrancy);
                }
            },
            None => {
                return Err(StateError::MissingKey);
            },
        }
        app.enqueue_render(self.key.duplicate());
        app.component_mut(&self.key)
    }
}

/// What a handler receives when its event fires.
#[derive(Clone, Debug)]
pub struct Event {
    /// The node the event fired on.
    pub target: u64,
    /// The view whose handler runs.
    pub binding: ViewHandle,
    /// Data access in the scope of that view.
    pub app: AppContext,
    /// For a selector-scoped handler, the index of the matched node.
    pub index: usize,
}

impl Event {
    /// The event for a handler of view `binding` that fired on `target`,
    /// with match index `index`. Data read through it makes the view an
    /// observer.
    pub fn new(target: u64, binding: ViewHandle, index: usize) -> (r: Event)
        ensures
            r.target == target,
            r.binding@ == binding@,
            r.app.viewer() == Some(binding@.0),
            r.index == index,
    {
        let app = AppContext::new(Some(binding.key().duplicate()));
        Event { target, binding, app, index }
    }
}

} // verus!
