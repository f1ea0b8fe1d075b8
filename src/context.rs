use vstd::prelude::*;

use crate::key::{KeyView, TypedKey};
use crate::state::{observed, written, AppState, AppStateView};

verus! {

/// The state after a read of data key `k` in the scope of `viewer`: a view
/// in scope becomes an observer of `k`.
pub open spec fn read_in_scope<V, C>(s: AppStateView<V, C>, k: KeyView, viewer: Option<KeyView>) -> AppStateView<V, C> {
    match viewer {
        Some(v) => observed(s, k, v),
        None => s,
    }
}

/// Access to application data in the scope of one view, or of none.
///
/// Every read through a context with a view in scope records that view as an
/// observer of the key read, so that the view is re-rendered when the data
/// under that key is next handed out for writing. Dependencies are found by
/// what is actually read, not declared ahead of time.
#[derive(Clone, Debug)]
pub struct AppContext {
    view_id: Option<TypedKey>,
}

impl AppContext {
    /// The view in scope, if any.
    pub closed spec fn viewer(&self) -> Option<KeyView> {
        match self.view_id {
            Some(k) => Some(k@),
            None => None,
        }
    }

    /// A context in the scope of view `view_id`, or of no view.
    pub fn new(view_id: Option<TypedKey>) -> (r: AppContext)
        ensures
            r.viewer() == match view_id {
                Some(k) => Some(k@),
                None => None::<KeyView>,
            },
    {
        AppContext { view_id }
    }

    /// The data under `key`, if any; the view in scope becomes an observer
    /// of `key`.
    pub fn data<'a, V, C>(&self, app: &'a mut AppState<V, C>, key: &TypedKey) -> (r: Option<&'a V>)
        requires
            old(app).wf(),
        ensures
            final(app).wf(),
            final(app).view() == read_in_scope(old(app).view(), key@, self.viewer()),
            match r {
                Some(v) => old(app).view().data.contains_key(key@) && *v == old(app).view().data[key@],
                None => !old(app).view().data.contains_key(key@),
            },
    {
        match &self.view_id {
            Some(v) => app.add_observer(key.duplicate(), v.duplicate()),
            None => {},
        }
        app.data(key)
    }

    /// A handle through which the data under `key` can be changed; the view
    /// in scope becomes an observer of `key`, and every observer of `key` is
    /// queued for re-rendering.
    pub fn data_mut<'a, V, C>(&self, app: &'a mut AppState<V, C>, key: &TypedKey) -> (r: Option<&'a mut V>)
        requires
            old(app).wf(),
        ensures
            final(app).wf(),
            match r {
                Some(v) => {
                    &&& old(app).view().data.contains_key(key@)
                    &&& *v == old(app).view().data[key@]
                    &&& final(app).view() == written(read_in_scope(old(app).view(), key@, self.viewer()), key@, *final(v))
                },
                None => {
                    &&& !old(app).view().data.contains_key(key@)
                    &&& final(app).view() == read_in_scope(old(app).view(), key@, self.viewer())
                },
            },
    {
        match &self.view_id {
            Some(v) => app.add_observer(key.duplicate(), v.duplicate()),
            None => {},
        }
        app.data_mut(key)
    }
}

} // verus!
