use vstd::prelude::*;

use crate::binding::{rerender_handlers, rerender_listens, Binding, BindingView, Handler, HandlerView, Listen};
use crate::events::EventType;
use crate::handle::ViewHandle;
use crate::key::{KeyView, TypedKey};
use crate::store::{KeyMap, KeySet};

verus! {

/// Why an access to a binding or a state slot did not go through.
#[derive(Clone, Copy, Debug, PartialEq, Eq, Structural)]
pub enum StateError {
    /// No value or binding is stored under the key.
    MissingKey,
    /// The binding's data is taken out by a render that has not finished.
    Reentrancy,
    /// The match lists handed in do not line up with the binding's handlers.
    MatchCount,
}

/// A view that needs re-rendering, and the host node it is mounted at.
#[derive(Clone, Debug)]
pub struct RenderJob {
    pub view: TypedKey,
    pub node: u64,
}

/// The mathematical value of the application state.
pub struct AppStateView<V, C> {
    /// Application data, by data key.
    pub data: Map<KeyView, V>,
    /// Mounted bindings, by view key.
    pub bindings: Map<KeyView, BindingView<C>>,
    /// For each data key, the view keys that read it, in the order they
    /// first did.
    pub observers: Map<KeyView, Seq<KeyView>>,
    /// View keys waiting for a re-render, in the order they were queued.
    pub queue: Seq<KeyView>,
}

/// The views that observe data key `k`, in the order they first did.
pub open spec fn observers_of<V, C>(s: AppStateView<V, C>, k: KeyView) -> Seq<KeyView> {
    if s.observers.contains_key(k) {
        s.observers[k]
    } else {
        Seq::empty()
    }
}

/// The state after a write through the data slot `k`: the slot holds `v`
/// and every observer of `k` is queued for re-rendering.
pub open spec fn written<V, C>(s: AppStateView<V, C>, k: KeyView, v: V) -> AppStateView<V, C> {
    AppStateView {
        data: s.data.insert(k, v),
        queue: s.queue + observers_of(s, k),
        ..s
    }
}

/// The state after view `v` was recorded as an observer of data key `k`.
pub open spec fn observed<V, C>(s: AppStateView<V, C>, k: KeyView, v: KeyView) -> AppStateView<V, C> {
    let obs = observers_of(s, k);
    AppStateView {
        observers: s.observers.insert(k, if obs.contains(v) { obs } else { obs.push(v) }),
        ..s
    }
}

/// The views of the bindings in a map.
pub open spec fn binding_views<C>(m: Map<KeyView, Binding<C>>) -> Map<KeyView, BindingView<C>> {
    m.map_values(|b: Binding<C>| b@)
}

/// The views a drain re-renders: each queued view that is still mounted,
/// once, in the order of its first occurrence in the queue.
pub open spec fn pending_views(q: Seq<KeyView>, live: Set<KeyView>) -> Seq<KeyView>
    decreases q.len(),
{
    if q.len() == 0 {
        Seq::empty()
    } else {
        let prev = pending_views(q.drop_last(), live);
        let k = q.last();
        if prev.contains(k) || !live.contains(k) {
            prev
        } else {
            prev.push(k)
        }
    }
}

/// The view keys of a list of render jobs.
pub open spec fn job_views(jobs: Seq<RenderJob>) -> Seq<KeyView> {
    jobs.map_values(|j: RenderJob| j.view@)
}

/// Whether some job in `jobs` is for view `key`.
fn has_job(jobs: &Vec<RenderJob>, key: &TypedKey) -> (r: bool)
    ensures
        r == job_views(jobs@).contains(key@),
{
    let mut i: usize = 0;
    while i < jobs.len()
        invariant
            i <= jobs.len(),
            forall|j: int| 0 <= j < i ==> jobs@[j].view@ != key@,
        decreases jobs.len() - i,
    {
        if jobs[i].view.same(key) {
            assert(job_views(jobs@)[i as int] == key@);
            return true;
        }
        i += 1;
    }
    assert(!job_views(jobs@).contains(key@)) by {
        if job_views(jobs@).contains(key@) {
            let j = choose|j: int| 0 <= j < jobs@.len() && job_views(jobs@)[j] == key@;
            assert(job_views(jobs@)[j] == jobs@[j].view@);
        }
    }
    false
}

/// The owner of all application state: data slots, bindings, observer edges
/// and the render queue.
pub struct AppState<V, C> {
    data: KeyMap<V>,
    bindings: KeyMap<Binding<C>>,
    observers: KeyMap<KeySet>,
    queue: Vec<TypedKey>,
}

impl<V, C> AppState<V, C> {
    /// The stores are well formed.
    pub closed spec fn wf(&self) -> bool {
        &&& self.data.wf()
        &&& self.bindings.wf()
        &&& self.observers.wf()
        &&& forall|k: KeyView| #[trigger] self.observers.view().contains_key(k) ==> self.observers.view()[k].wf()
    }

    /// The mathematical value of the state.
    pub closed spec fn view(&self) -> AppStateView<V, C> {
        AppStateView {
            data: self.data.view(),
            bindings: binding_views(self.bindings.view()),
            observers: self.observers.view().map_values(|s: KeySet| s.elems()),
            queue: crate::store::key_views(self.queue@),
        }
    }

    /// An empty state: no data, no bindings, no observers, nothing queued.
    pub fn new() -> (r: AppState<V, C>)
        ensures
            r.wf(),
            r.view().data == Map::<KeyView, V>::empty(),
            r.view().bindings == Map::<KeyView, BindingView<C>>::empty(),
            r.view().observers == Map::<KeyView, Seq<KeyView>>::empty(),
            r.view().queue == Seq::<KeyView>::empty(),
    {
        let r = AppState { data: KeyMap::new(), bindings: KeyMap::new(), observers: KeyMap::new(), queue: Vec::new() };
        assert(r.view().bindings =~= Map::<KeyView, BindingView<C>>::empty());
        assert(r.view().observers =~= Map::<KeyView, Seq<KeyView>>::empty());
        assert(r.view().queue =~= Seq::<KeyView>::empty());
        r
    }

    /// The data stored under `key`, if any.
    pub fn data(&self, key: &TypedKey) -> (r: Option<&V>)
        requires
            self.wf(),
        ensures
            match r {
                Some(v) => self.view().data.contains_key(key@) && *v == self.view().data[key@],
                None => !self.view().data.contains_key(key@),
            },
    {
        self.data.get(key)
    }

    /// Stores `value` under `key`, replacing any earlier value. Observers are
    /// not queued: this is for setting up state before views read it.
    pub fn data_set(&mut self, key: TypedKey, value: V)
        requires
            old(self).wf(),
        ensures
            final(self).wf(),
            final(self).view() == (AppStateView { data: old(self).view().data.insert(key@, value), ..old(self).view() }),
    {
        self.data.insert(key, value);
    }

    /// Queues view `view` for re-rendering.
    pub fn enqueue_render(&mut self, view: TypedKey)
        requires
            old(self).wf(),
        ensures
            final(self).wf(),
            final(self).view() == (AppStateView { queue: old(self).view().queue.push(view@), ..old(self).view() }),
    {
        let ghost k = view@;
        self.queue.push(view);
        assert(self.view().queue =~= old(self).view().queue.push(k));
    }

    /// Appends the observers of `key` to the render queue.
    fn enqueue_observers(&mut self, key: &TypedKey)
        requires
            old(self).wf(),
        ensures
            final(self).wf(),
            final(self).view() == (AppStateView {
                queue: old(self).view().queue + observers_of(old(self).view(), key@),
                ..old(self).view()
            }),
    {
        match self.observers.get(key) {
            Some(set) => {
                let ghost obs = set.elems();
                let mut i: usize = 0;
                while i < set.len()
                    invariant
                        i <= set.elems().len(),
                        obs == set.elems(),
                        self.data == old(self).data,
                        self.bindings == old(self).bindings,
                        self.observers == old(self).observers,
                        crate::store::key_views(self.queue@) == crate::store::key_views(old(self).queue@) + obs.subrange(0, i as int),
                    decreases set.elems().len() - i,
                {
                    let k = set.get(i).duplicate();
                    let ghost kv = k@;
                    let ghost prev = self.queue@;
                    self.queue.push(k);
                    proof {
                        assert(kv == obs[i as int]);
                        assert(crate::store::key_views(self.queue@) =~= crate::store::key_views(prev).push(kv));
                        assert(crate::store::key_views(self.queue@) =~= crate::store::key_views(old(self).queue@) + obs.subrange(0, i as int + 1));
                    }
                    i += 1;
                }
                assert(obs.subrange(0, obs.len() as int) =~= obs);
                assert(self.view().queue == old(self).view().queue + observers_of(old(self).view(), key@));
            },
            None => {
                assert(old(self).view().queue + observers_of(old(self).view(), key@) =~= old(self).view().queue);
            },
        }
    }

    /// A handle through which the data under `key` can be changed. Since the
    /// engine cannot tell whether the caller writes through it, every observer
    /// of `key` is queued for re-rendering before it is handed out.
    pub fn data_mut(&mut self, key: &TypedKey) -> (r: Option<&mut V>)
        requires
            old(self).wf(),
        ensures
            match r {
                Some(v) => {
                    &&& old(self).view().data.contains_key(key@)
                    &&& *v == old(self).view().data[key@]
                    &&& final(self).wf()
                    &&& final(self).view() == written(old(self).view(), key@, *final(v))
                },
                None => {
                    &&& !old(self).view().data.contains_key(key@)
                    &&& *final(self) == *old(self)
                },
            },
    {
        if !self.data.contains(key) {
            return None;
        }
        self.enqueue_observers(key);
        self.data.get_mut(key)
    }

    /// Records view `view_key` as an observer of data key `data_key`. Recording
    /// the same pair twice has the effect of recording it once.
    pub fn add_observer(&mut self, data_key: TypedKey, view_key: TypedKey)
        requires
            old(self).wf(),
        ensures
            final(self).wf(),
            final(self).view() == observed(old(self).view(), data_key@, view_key@),
    {
        let ghost dk = data_key@;
        let ghost vk = view_key@;
        let ghost before = self.view();
        match self.observers.get_mut(&data_key) {
            Some(set) => {
                set.insert(view_key);
            },
            None => {
                let mut set = KeySet::new();
                set.insert(view_key);
                assert(set.elems() =~= Seq::<KeyView>::empty().push(vk));
                self.observers.insert(data_key, set);
            },
        }
        proof {
            assert(self.view().observers =~= observed(before, dk, vk).observers);
        }
    }

    /// Drains the render queue. Returns one job for each queued view that is
    /// still mounted, once, in the order of first queueing; keys without a
    /// binding are skipped. The queue is left empty.
    pub fn process_render_queue(&mut self) -> (r: Vec<RenderJob>)
        requires
            old(self).wf(),
        ensures
            final(self).wf(),
            final(self).view() == (AppStateView { queue: Seq::<KeyView>::empty(), ..old(self).view() }),
            job_views(r@) == pending_views(old(self).view().queue, old(self).view().bindings.dom()),
            forall|j: int| 0 <= j < r@.len() ==> #[trigger] r@[j].node == old(self).view().bindings[r@[j].view@].node,
    {
        let ghost q = old(self).view().queue;
        let ghost live = old(self).view().bindings.dom();
        let mut jobs: Vec<RenderJob> = Vec::new();
        let mut i: usize = 0;
        while i < self.queue.len()
            invariant
                i <= self.queue.len(),
                *self == *old(self),
                self.wf(),
                q == self.view().queue,
                live == self.view().bindings.dom(),
                job_views(jobs@) == pending_views(q.subrange(0, i as int), live),
                forall|j: int| 0 <= j < jobs@.len() ==> #[trigger] jobs@[j].node == self.view().bindings[jobs@[j].view@].node,
            decreases self.queue.len() - i,
        {
            let key = &self.queue[i];
            proof {
                let sub = q.subrange(0, i as int + 1);
                assert(sub.drop_last() =~= q.subrange(0, i as int));
                assert(sub.last() == key@);
            }
            if !has_job(&jobs, key) {
                match self.bindings.get(key) {
                    Some(b) => {
                        let job = RenderJob { view: key.duplicate(), node: b.node() };
                        let ghost before = jobs@;
                        jobs.push(job);
                        proof {
                            assert(job_views(jobs@) =~= job_views(before).push(key@));
                        }
                    },
                    None => {},
                }
            }
            i += 1;
        }
        assert(q.subrange(0, q.len() as int) =~= q);
        self.queue = Vec::new();
        assert(self.view().queue =~= Seq::<KeyView>::empty());
        jobs
    }

    /// The binding mounted under view key `view`, if any.
    pub fn binding(&self, view: &TypedKey) -> (r: Option<&Binding<C>>)
        requires
            self.wf(),
        ensures
            match r {
                Some(b) => self.view().bindings.contains_key(view@) && b@ == self.view().bindings[view@],
                None => !self.view().bindings.contains_key(view@),
            },
    {
        self.bindings.get(view)
    }

    /// Mounts `component` at host node `node` under view key `key`, with no
    /// handlers, and returns the view's handle. A binding already stored under
    /// `key` is replaced.
    pub fn insert_binding(&mut self, key: TypedKey, component: C, node: u64) -> (r: ViewHandle)
        requires
            old(self).wf(),
        ensures
            final(self).wf(),
            final(self).view() == (AppStateView {
                bindings: old(self).view().bindings.insert(
                    key@,
                    BindingView { component: Some(component), node, handlers: Seq::<HandlerView>::empty() },
                ),
                ..old(self).view()
            }),
            r@ == (key@, node),
    {
        let r = ViewHandle::new(key.duplicate(), node);
        let b = Binding::new(component, node);
        let ghost bv = b@;
        let ghost kv = key@;
        self.bindings.insert(key, b);
        assert(self.view().bindings =~= old(self).view().bindings.insert(kv, bv));
        r
    }

    /// A fresh view key of type descriptor `tid`, named by a random UUID.
    /// Returns `None` only when the drawn name is already mounted.
    pub fn new_view_key(&self, tid: u64) -> (r: Option<TypedKey>)
        requires
            self.wf(),
        ensures
            match r {
                Some(k) => k.tid == tid && k.name@.len() == 36 && !self.view().bindings.contains_key(k@),
                None => exists|n: Seq<char>| n.len() == 36 && self.view().bindings.contains_key((tid, n)),
            },
    {
        let key = TypedKey { tid, name: random_token() };
        if self.bindings.contains(&key) {
            None
        } else {
            Some(key)
        }
    }

    /// Takes the data of view `view` out for rendering; until it is put back,
    /// the view's data cannot be reached.
    pub fn begin_render(&mut self, view: &TypedKey) -> (r: Result<C, StateError>)
        requires
            old(self).wf(),
        ensures
            final(self).wf(),
            !old(self).view().bindings.contains_key(view@) ==> r == Err::<C, StateError>(StateError::MissingKey)
                && final(self).view() == old(self).view(),
            old(self).view().bindings.contains_key(view@) && old(self).view().bindings[view@].component.is_none()
                ==> r == Err::<C, StateError>(StateError::Reentrancy) && final(self).view() == old(self).view(),
            old(self).view().bindings.contains_key(view@) && old(self).view().bindings[view@].component.is_some()
                ==> r == Ok::<C, StateError>(old(self).view().bindings[view@].component.unwrap())
                && final(self).view() == (AppStateView {
                    bindings: old(self).view().bindings.insert(
                        view@,
                        BindingView { component: None, ..old(self).view().bindings[view@] },
                    ),
                    ..old(self).view()
                }),
    {
        let ghost before = self.view();
        match self.bindings.get_mut(view) {
            Some(b) => {
                if b.is_rendering() {
                    proof {
                        assert(self.view().bindings =~= before.bindings);
                    }
                    Err(StateError::Reentrancy)
                } else {
                    let c = b.take_component();
                    proof {
                        assert(self.view().bindings =~= before.bindings.insert(
                            view@,
                            BindingView { component: None, ..before.bindings[view@] },
                        ));
                    }
                    match c {
                        Some(c) => Ok(c),
                        None => Err(StateError::Reentrancy),
                    }
                }
            },
            None => Err(StateError::MissingKey),
        }
    }

    /// Puts the data of view `view` back after rendering.
    pub fn end_render(&mut self, view: &TypedKey, component: C) -> (r: Result<(), StateError>)
        requires
            old(self).wf(),
        ensures
            final(self).wf(),
            !old(self).view().bindings.contains_key(view@) ==> r == Err::<(), StateError>(StateError::MissingKey)
                && final(self).view() == old(self).view(),
            old(self).view().bindings.contains_key(view@) ==> r == Ok::<(), StateError>(())
                && final(self).view() == (AppStateView {
                    bindings: old(self).view().bindings.insert(
                        view@,
                        BindingView { component: Some(component), ..old(self).view().bindings[view@] },
                    ),
                    ..old(self).view()
                }),
    {
        let ghost before = self.view();
        match self.bindings.get_mut(view) {
            Some(b) => {
                b.restore_component(component);
                proof {
                    assert(self.view().bindings =~= before.bindings.insert(
                        view@,
                        BindingView { component: Some(component), ..before.bindings[view@] },
                    ));
                }
                Ok(())
            },
            None => Err(StateError::MissingKey),
        }
    }

    /// The selectors of the handlers of view `view`, in handler order; `None`
    /// stands for a root handler.
    pub fn handler_selectors(&self, view: &TypedKey) -> (r: Option<Vec<Option<String>>>)
        requires
            self.wf(),
        ensures
            match r {
                Some(sels) => {
                    &&& self.view().bindings.contains_key(view@)
                    &&& sels@.len() == self.view().bindings[view@].handlers.len()
                    &&& forall|i: int| 0 <= i < sels@.len() ==> match #[trigger] sels@[i] {
                        Some(s) => self.view().bindings[view@].handlers[i].selector == Some(s@),
                        None => self.view().bindings[view@].handlers[i].selector.is_none(),
                    }
                },
                None => !self.view().bindings.contains_key(view@),
            },
    {
        match self.bindings.get(view) {
            Some(b) => {
                let mut sels: Vec<Option<String>> = Vec::new();
                let mut i: usize = 0;
                while i < b.handler_count()
                    invariant
                        i <= b@.handlers.len(),
                        sels@.len() == i,
                        forall|j: int| 0 <= j < i ==> match #[trigger] sels@[j] {
                            Some(s) => b@.handlers[j].selector == Some(s@),
                            None => b@.handlers[j].selector.is_none(),
                        },
                    decreases b@.handlers.len() - i,
                {
                    let h = b.handler(i);
                    let sel = match &h.selector {
                        Some(s) => Some(s.clone()),
                        None => None,
                    };
                    sels.push(sel);
                    i += 1;
                }
                Some(sels)
            },
            None => None,
        }
    }

    /// After the markup of view `view` was replaced, brings its selector-scoped
    /// handlers up to date with `matches` (one list of matched nodes per
    /// handler, in handler order) and returns the listeners to attach.
    pub fn reattach_handlers(&mut self, view: &TypedKey, matches: &Vec<Vec<u64>>) -> (r: Result<Vec<Listen>, StateError>)
        requires
            old(self).wf(),
        ensures
            final(self).wf(),
            !old(self).view().bindings.contains_key(view@) ==> r == Err::<Vec<Listen>, StateError>(StateError::MissingKey)
                && final(self).view() == old(self).view(),
            old(self).view().bindings.contains_key(view@)
                && matches@.len() != old(self).view().bindings[view@].handlers.len()
                ==> r == Err::<Vec<Listen>, StateError>(StateError::MatchCount) && final(self).view() == old(self).view(),
            old(self).view().bindings.contains_key(view@)
                && matches@.len() == old(self).view().bindings[view@].handlers.len()
                ==> {
                    let b = old(self).view().bindings[view@];
                    let ms = matches@.map_values(|m: Vec<u64>| m@);
                    &&& r is Ok
                    &&& r.unwrap()@ == rerender_listens(b.handlers, ms)
                    &&& final(self).view() == (AppStateView {
                        bindings: old(self).view().bindings.insert(
                            view@,
                            BindingView { handlers: rerender_handlers(b.handlers, ms), ..b },
                        ),
                        ..old(self).view()
                    })
                },
    {
        let ghost before = self.view();
        match self.bindings.get_mut(view) {
            Some(b) => {
                if matches.len() != b.handler_count() {
                    proof {
                        assert(self.view().bindings =~= before.bindings);
                    }
                    return Err(StateError::MatchCount);
                }
                let listens = b.reattach(matches);
                proof {
                    let ms = matches@.map_values(|m: Vec<u64>| m@);
                    let bv = before.bindings[view@];
                    assert(self.view().bindings =~= before.bindings.insert(
                        view@,
                        BindingView { handlers: rerender_handlers(bv.handlers, ms), ..bv },
                    ));
                }
                Ok(listens)
            },
            None => Err(StateError::MissingKey),
        }
    }

    /// Appends a handler to the binding of view `view`.
    pub fn add_handler(
        &mut self,
        view: &TypedKey,
        event_type: EventType,
        selector: Option<String>,
        callback: u64,
        registered: Vec<u64>,
    ) -> (r: Result<(), StateError>)
        requires
            old(self).wf(),
        ensures
            final(self).wf(),
            !old(self).view().bindings.contains_key(view@) ==> r == Err::<(), StateError>(StateError::MissingKey)
                && final(self).view() == old(self).view(),
            old(self).view().bindings.contains_key(view@) ==> r == Ok::<(), StateError>(())
                && final(self).view() == (AppStateView {
                    bindings: old(self).view().bindings.insert(
                        view@,
                        BindingView {
                            handlers: old(self).view().bindings[view@].handlers.push(
                                Handler { event_type, selector, callback, registered }@,
                            ),
                            ..old(self).view().bindings[view@]
                        },
                    ),
                    ..old(self).view()
                }),
    {
        let ghost before = self.view();
        let ghost hv = Handler { event_type, selector, callback, registered }@;
        match self.bindings.get_mut(view) {
            Some(b) => {
                b.add_handler(event_type, selector, callback, registered);
                proof {
                    let bv = before.bindings[view@];
                    assert(self.view().bindings =~= before.bindings.insert(
                        view@,
                        BindingView { handlers: bv.handlers.push(hv), ..bv },
                    ));
                }
                Ok(())
            },
            None => Err(StateError::MissingKey),
        }
    }

    /// The data of view `view`.
    pub fn component(&self, view: &TypedKey) -> (r: Result<&C, StateError>)
        requires
            self.wf(),
        ensures
            !self.view().bindings.contains_key(view@) ==> r == Err::<&C, StateError>(StateError::MissingKey),
            self.view().bindings.contains_key(view@) && self.view().bindings[view@].component.is_none()
                ==> r == Err::<&C, StateError>(StateError::Reentrancy),
            self.view().bindings.contains_key(view@) && self.view().bindings[view@].component.is_some()
                ==> r is Ok && Some(*r.unwrap()) == self.view().bindings[view@].component,
    {
        match self.bindings.get(view) {
            Some(b) => match b.component() {
                Some(c) => Ok(c),
                None => Err(StateError::Reentrancy),
            },
            None => Err(StateError::MissingKey),
        }
    }

    /// A handle through which the data of view `view` can be changed.
    pub fn component_mut(&mut self, view: &TypedKey) -> (r: Result<&mut C, StateError>)
        requires
            old(self).wf(),
        ensures
            match r {
                Ok(c) => {
                    &&& old(self).view().bindings.contains_key(view@)
                    &&& old(self).view().bindings[view@].component == Some(*c)
                    &&& final(self).wf()
                    &&& final(self).view() == (AppStateView {
                        bindings: old(self).view().bindings.insert(
                            view@,
                            BindingView { component: Some(*final(c)), ..old(self).view().bindings[view@] },
                        ),
                        ..old(self).view()
                    })
                },
                Err(e) => {
                    &&& final(self).view() == old(self).view()
                    &&& final(self).wf()
                    &&& e == if old(self).view().bindings.contains_key(view@) {
                        StateError::Reentrancy
                    } else {
                        StateError::MissingKey
                    }
                    &&& old(self).view().bindings.contains_key(view@) ==> old(self).view().bindings[view@].component.is_none()
                },
            },
    {
        if !self.bindings.contains(view) {
            return Err(StateError::MissingKey);
        }
        proof {
            let m = self.bindings.view();
            assert forall|b: Binding<C>| #[trigger] binding_views(m.insert(view@, b))
                == binding_views(m).insert(view@, b@) by {
                assert(binding_views(m.insert(view@, b)) =~= binding_views(m).insert(view@, b@));
            }
            assert(binding_views(m).insert(view@, m[view@]@) =~= binding_views(m));
        }
        match self.bindings.get_mut(view) {
            Some(b) => match b.component_mut() {
                Some(c) => Ok(c),
                None => Err(StateError::Reentrancy),
            },
            None => Err(StateError::MissingKey),
        }
    }
}

/// Relies on uuid::Uuid::new_v4 and the UUID's `Display`: a random version-4
/// UUID written in hyphenated form, which is 36 characters long.
#[verifier::external_body]
fn random_token() -> (r: String)
    ensures
        r@.len() == 36,
{
    uuid::Uuid::new_v4().to_string()
}

} // verus!
