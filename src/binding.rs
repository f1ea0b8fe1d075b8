use vstd::prelude::*;

use crate::events::EventType;

verus! {

/// A listener that the host must attach: when `event` fires on `node`,
/// the caller's handler number `callback` runs with the match index `index`.
#[derive(Clone, Copy, Debug, PartialEq, Eq, Structural)]
pub struct Listen {
    pub node: u64,
    pub event: EventType,
    pub callback: u64,
    pub index: usize,
}

/// A registered event handler of a binding.
///
/// Without a selector it is bound to the binding's own node, whose identity
/// survives every re-render. With a selector it is bound to the descendants
/// that match it, which are looked up again after every re-render.
#[derive(Clone, Debug)]
pub struct Handler {
    pub event_type: EventType,
    pub selector: Option<String>,
    pub callback: u64,
    pub registered: Vec<u64>,
}

/// The mathematical value of a handler.
pub struct HandlerView {
    pub event_type: EventType,
    pub selector: Option<Seq<char>>,
    pub callback: u64,
    pub registered: Seq<u64>,
}

impl View for Handler {
    type V = HandlerView;

    open spec fn view(&self) -> HandlerView {
        HandlerView {
            event_type: self.event_type,
            selector: match self.selector {
                Some(s) => Some(s@),
                None => None,
            },
            callback: self.callback,
            registered: self.registered@,
        }
    }
}

/// The listeners a selector-scoped handler needs after its selector matched
/// `matches`: one for each match that was not registered before, in match
/// order, carrying the match's index.
pub open spec fn fresh_listens(registered: Seq<u64>, matches: Seq<u64>, event: EventType, callback: u64) -> Seq<Listen>
    decreases matches.len(),
{
    if matches.len() == 0 {
        Seq::empty()
    } else {
        let i = matches.len() - 1;
        let prev = fresh_listens(registered, matches.drop_last(), event, callback);
        if registered.contains(matches[i]) {
            prev
        } else {
            prev.push(Listen { node: matches[i], event, callback, index: i as usize })
        }
    }
}

/// The listeners one handler needs after a re-render in which its selector
/// matched `matches`. A root handler needs none.
pub open spec fn handler_listens(h: HandlerView, matches: Seq<u64>) -> Seq<Listen> {
    match h.selector {
        Some(_) => fresh_listens(h.registered, matches, h.event_type, h.callback),
        None => Seq::empty(),
    }
}

/// A handler after a re-render in which its selector matched `matches`: a
/// selector-scoped handler now holds exactly those nodes; a root handler is
/// unchanged.
pub open spec fn handler_after(h: HandlerView, matches: Seq<u64>) -> HandlerView {
    match h.selector {
        Some(_) => HandlerView { registered: matches, ..h },
        None => h,
    }
}

/// The listeners that the first `n` handlers need, handler by handler.
pub open spec fn listens_upto(hs: Seq<HandlerView>, ms: Seq<Seq<u64>>, n: nat) -> Seq<Listen>
    decreases n,
{
    if n == 0 {
        Seq::empty()
    } else {
        listens_upto(hs, ms, (n - 1) as nat) + handler_listens(hs[n - 1], ms[n - 1])
    }
}

/// The listeners all handlers need after a re-render.
pub open spec fn rerender_listens(hs: Seq<HandlerView>, ms: Seq<Seq<u64>>) -> Seq<Listen> {
    listens_upto(hs, ms, hs.len())
}

/// All handlers after a re-render.
pub open spec fn rerender_handlers(hs: Seq<HandlerView>, ms: Seq<Seq<u64>>) -> Seq<HandlerView> {
    Seq::new(hs.len(), |i: int| handler_after(hs[i], ms[i]))
}

/// Whether `node` occurs in `nodes`.
fn has_node(nodes: &Vec<u64>, node: u64) -> (r: bool)
    ensures
        r == nodes@.contains(node),
{
    let mut i: usize = 0;
    while i < nodes.len()
        invariant
            i <= nodes.len(),
            forall|j: int| 0 <= j < i ==> nodes@[j] != node,
        decreases nodes.len() - i,
    {
        if nodes[i] == node {
            return true;
        }
        i += 1;
    }
    false
}

/// A copy of a list of nodes.
fn copy_nodes(nodes: &Vec<u64>) -> (r: Vec<u64>)
    ensures
        r@ == nodes@,
{
    let mut r: Vec<u64> = Vec::new();
    let mut i: usize = 0;
    while i < nodes.len()
        invariant
            i <= nodes.len(),
            r@ == nodes@.subrange(0, i as int),
        decreases nodes.len() - i,
    {
        r.push(nodes[i]);
        i += 1;
    }
    assert(r@ =~= nodes@);
    r
}

impl Handler {
    /// The listeners this handler needs after its selector matched `matches`;
    /// a selector-scoped handler then holds exactly `matches`.
    pub fn reattach(&mut self, matches: &Vec<u64>) -> (r: Vec<Listen>)
        ensures
            r@ == handler_listens(old(self)@, matches@),
            final(self)@ == handler_after(old(self)@, matches@),
    {
        let mut out: Vec<Listen> = Vec::new();
        if self.selector.is_none() {
            return out;
        }
        let mut i: usize = 0;
        while i < matches.len()
            invariant
                i <= matches.len(),
                *self == *old(self),
                self.selector.is_some(),
                out@ == fresh_listens(self.registered@, matches@.subrange(0, i as int), self.event_type, self.callback),
            decreases matches.len() - i,
        {
            let node = matches[i];
            let seen = has_node(&self.registered, node);
            proof {
                let m = matches@.subrange(0, i as int + 1);
                assert(m.drop_last() =~= matches@.subrange(0, i as int));
                assert(m[i as int] == node);
            }
            if !seen {
                out.push(Listen { node, event: self.event_type, callback: self.callback, index: i });
            }
            i += 1;
        }
        assert(matches@.subrange(0, matches.len() as int) =~= matches@);
        self.registered = copy_nodes(matches);
        out
    }
}

/// The views of a list of handlers.
pub open spec fn handler_views(hs: Seq<Handler>) -> Seq<HandlerView> {
    hs.map_values(|h: Handler| h@)
}

/// One mounted component: its data, its host node and its event handlers.
///
/// While the component is being rendered its data is taken out, and the
/// binding holds none.
pub struct Binding<C> {
    component: Option<C>,
    node: u64,
    handlers: Vec<Handler>,
}

/// The mathematical value of a binding.
pub struct BindingView<C> {
    pub component: Option<C>,
    pub node: u64,
    pub handlers: Seq<HandlerView>,
}

impl<C> View for Binding<C> {
    type V = BindingView<C>;

    closed spec fn view(&self) -> BindingView<C> {
        BindingView {
            component: self.component,
            node: self.node,
            handlers: handler_views(self.handlers@),
        }
    }
}

impl<C> Binding<C> {
    /// A binding of `component` mounted at `node`, with no handlers.
    pub fn new(component: C, node: u64) -> (r: Binding<C>)
        ensures
            r@ == (BindingView { component: Some(component), node, handlers: Seq::<HandlerView>::empty() }),
    {
        let r = Binding { component: Some(component), node, handlers: Vec::new() };
        assert(r@.handlers =~= Seq::<HandlerView>::empty());
        r
    }

    /// The host node the binding is mounted at.
    pub fn node(&self) -> (r: u64)
        ensures
            r == self@.node,
    {
        self.node
    }

    /// Whether the component's data is taken out for rendering.
    pub fn is_rendering(&self) -> (r: bool)
        ensures
            r == self@.component.is_none(),
    {
        self.component.is_none()
    }

    /// The number of handlers.
    pub fn handler_count(&self) -> (r: usize)
        ensures
            r == self@.handlers.len(),
    {
        self.handlers.len()
    }

    /// The handler at position `i`, in the order they were added.
    pub fn handler(&self, i: usize) -> (r: &Handler)
        requires
            i < self@.handlers.len(),
        ensures
            r@ == self@.handlers[i as int],
    {
        &self.handlers[i]
    }

    /// Appends a handler.
    pub fn add_handler(&mut self, event_type: EventType, selector: Option<String>, callback: u64, registered: Vec<u64>)
        ensures
            final(self)@ == (BindingView {
                handlers: old(self)@.handlers.push(
                    Handler { event_type, selector, callback, registered }@,
                ),
                ..old(self)@
            }),
    {
        let h = Handler { event_type, selector, callback, registered };
        let ghost hv = h@;
        self.handlers.push(h);
        assert(self@.handlers =~= old(self)@.handlers.push(hv));
    }

    /// The component's data, unless it is taken out for rendering.
    pub fn component(&self) -> (r: Option<&C>)
        ensures
            match r {
                Some(c) => self@.component == Some(*c),
                None => self@.component.is_none(),
            },
    {
        match &self.component {
            Some(c) => Some(c),
            None => None,
        }
    }

    /// A handle to the component's data, unless it is taken out for rendering.
    pub fn component_mut(&mut self) -> (r: Option<&mut C>)
        ensures
            match r {
                Some(c) => {
                    &&& old(self)@.component == Some(*c)
                    &&& final(self)@ == (BindingView { component: Some(*final(c)), ..old(self)@ })
                },
                None => {
                    &&& old(self)@.component.is_none()
                    &&& final(self)@ == old(self)@
                },
            },
    {
        match &mut self.component {
            Some(c) => Some(c),
            None => None,
        }
    }

    /// Takes the component's data out for rendering.
    pub fn take_component(&mut self) -> (r: Option<C>)
        ensures
            r == old(self)@.component,
            final(self)@ == (BindingView { component: None, ..old(self)@ }),
    {
        self.component.take()
    }

    /// Puts the component's data back after rendering.
    pub fn restore_component(&mut self, component: C)
        ensures
            final(self)@ == (BindingView { component: Some(component), ..old(self)@ }),
    {
        self.component = Some(component);
    }

    /// After the binding's markup was replaced, brings every selector-scoped
    /// handler up to date with `matches`, the nodes its selector now matches
    /// (one list per handler, in handler order; the lists of root handlers are
    /// not read), and returns the listeners to attach.
    pub fn reattach(&mut self, matches: &Vec<Vec<u64>>) -> (r: Vec<Listen>)
        requires
            matches@.len() == old(self)@.handlers.len(),
        ensures
            r@ == rerender_listens(old(self)@.handlers, matches@.map_values(|m: Vec<u64>| m@)),
            final(self)@ == (BindingView {
                handlers: rerender_handlers(old(self)@.handlers, matches@.map_values(|m: Vec<u64>| m@)),
                ..old(self)@
            }),
    {
        let ghost ms = matches@.map_values(|m: Vec<u64>| m@);
        let ghost hs = old(self)@.handlers;
        let mut out: Vec<Listen> = Vec::new();
        let mut i: usize = 0;
        while i < self.handlers.len()
            invariant
                i <= self.handlers.len(),
                self.handlers.len() == hs.len(),
                matches@.len() == hs.len(),
                self.node == old(self).node,
                self.component == old(self).component,
                ms == matches@.map_values(|m: Vec<u64>| m@),
                hs == old(self)@.handlers,
                forall|j: int| 0 <= j < i ==> #[trigger] self.handlers@[j]@ == handler_after(hs[j], ms[j]),
                forall|j: int| i <= j < hs.len() ==> #[trigger] self.handlers@[j]@ == hs[j],
                out@ == listens_upto(hs, ms, i as nat),
            decreases self.handlers.len() - i,
        {
            let fresh = self.handlers[i].reattach(&matches[i]);
            proof {
                assert(ms[i as int] == matches@[i as int]@);
            }
            let mut fresh = fresh;
            out.append(&mut fresh);
            i += 1;
        }
        proof {
            assert(self@.handlers =~= rerender_handlers(hs, ms));
        }
        out
    }
}

} // verus!
