use std::collections::HashMap;

use quasar::{lookup_props, AppContext, AppState, Event, EventType, Listen, RenderJob, StateError, TypedKey, ViewHandle};

const DATA: u64 = 1;
const COUNTER: u64 = 2;
const TODO: u64 = 3;
const TEMPLATED: u64 = 4;

#[derive(Clone, Debug, PartialEq)]
enum Comp {
    Counter(u32),
    Todo(Vec<(String, bool)>),
    Templated(String),
    Plain(String),
}

/// A stand-in host document: the markup of each node, and the listeners
/// attached to each node. The k-th element of a tag inside a node keeps the
/// same identity across markup replacements.
#[derive(Default)]
struct Dom {
    markup: HashMap<u64, String>,
    listeners: Vec<Listen>,
    writes: usize,
}

impl Dom {
    fn set_inner(&mut self, node: u64, markup: String) {
        self.writes += 1;
        self.markup.insert(node, markup);
    }

    fn query_all(&self, node: u64, tag: &str) -> Vec<u64> {
        let m = self.markup.get(&node).cloned().unwrap_or_default();
        let n = m.matches(&format!("<{}", tag)).count() as u64;
        (0..n).map(|k| node * 1000 + k + 1).collect()
    }

    fn attach(&mut self, listens: Vec<Listen>) {
        self.listeners.extend(listens);
    }

    fn listeners_on(&self, node: u64) -> usize {
        self.listeners.iter().filter(|l| l.node == node).count()
    }
}

fn template_key() -> TypedKey {
    TypedKey::new(DATA, "template")
}

fn render(app: &mut AppState<String, Comp>, view: &TypedKey, comp: &Comp) -> String {
    let ctx = AppContext::new(Some(view.clone()));
    match comp {
        Comp::Counter(n) => format!("<p>Count: {}</p><button>+1</button>", n),
        Comp::Todo(items) => {
            let mut s = format!("<h3>To Do List ({} items)</h3><ul>", items.len());
            for (label, done) in items {
                s.push_str(&format!("<li><input type=\"checkbox\" {}>{}</li>", if *done { "checked" } else { "" }, label));
            }
            s.push_str("</ul><button>Add</button>");
            s
        }
        Comp::Templated(name) => {
            let t = ctx.data(app, &template_key()).cloned().unwrap_or_default();
            format!("<div>{} in {}</div>", name, t)
        }
        Comp::Plain(text) => format!("<span>{}</span>", text),
    }
}

fn mount(app: &mut AppState<String, Comp>, dom: &mut Dom, tid: u64, comp: Comp, node: u64) -> ViewHandle {
    let key = app.new_view_key(tid).expect("fresh key");
    let markup = render(app, &key, &comp);
    dom.set_inner(node, markup);
    app.insert_binding(key, comp, node)
}

fn rerender(app: &mut AppState<String, Comp>, dom: &mut Dom, job: &RenderJob) {
    let comp = app.begin_render(&job.view).expect("binding present");
    let markup = render(app, &job.view, &comp);
    app.end_render(&job.view, comp).expect("binding present");
    dom.set_inner(job.node, markup);
    let sels = app.handler_selectors(&job.view).expect("binding present");
    let matches: Vec<Vec<u64>> = sels
        .iter()
        .map(|s| match s {
            Some(sel) => dom.query_all(job.node, sel),
            None => Vec::new(),
        })
        .collect();
    let listens = app.reattach_handlers(&job.view, &matches).expect("one list per handler");
    dom.attach(listens);
}

fn drain(app: &mut AppState<String, Comp>, dom: &mut Dom) -> Vec<RenderJob> {
    let jobs = app.process_render_queue();
    for job in &jobs {
        rerender(app, dom, job);
    }
    jobs
}

#[test]
fn event_names() {
    assert_eq!(EventType::Click.name(), "click");
    assert_eq!(EventType::DoubleClick.name(), "dblclick");
    assert_eq!(EventType::MouseDown.name(), "mousedown");
    assert_eq!(EventType::MouseUp.name(), "mouseup");
    assert_eq!(EventType::MouseEnter.name(), "mouseenter");
    assert_eq!(EventType::MouseLeave.name(), "mouseleave");
    assert_eq!(EventType::MouseOver.name(), "mouseover");
    assert_eq!(EventType::MouseOut.name(), "mouseout");
    assert_eq!(EventType::Input.name(), "input");
    assert_eq!(EventType::Submit.name(), "submit");
    assert_eq!(EventType::Blur.name(), "blur");
    assert_eq!(EventType::Focus.name(), "focus");
}

#[test]
fn typed_keys_compare_type_and_name() {
    assert_eq!(TypedKey::new(1, "a"), TypedKey::new(1, "a"));
    assert_ne!(TypedKey::new(1, "a"), TypedKey::new(2, "a"));
    assert_ne!(TypedKey::new(1, "a"), TypedKey::new(1, "b"));
    assert!(TypedKey::new(5, "x").same(&TypedKey::new(5, "x")));
    assert_eq!(TypedKey::new(5, "x").duplicate(), TypedKey::new(5, "x"));
}

#[test]
fn missing_data_is_absent() {
    let mut app: AppState<String, Comp> = AppState::new();
    assert!(app.data(&template_key()).is_none());
    assert!(app.data_mut(&template_key()).is_none());
    assert!(app.process_render_queue().is_empty());
}

#[test]
fn read_after_write() {
    let mut app: AppState<String, Comp> = AppState::new();
    let k = template_key();
    app.data_set(k.clone(), "bart".to_string());
    *app.data_mut(&k).unwrap() = "maud".to_string();
    assert_eq!(app.data(&k).unwrap(), "maud");
    // the same name under another type descriptor is a different slot
    assert!(app.data(&TypedKey::new(TEMPLATED, "template")).is_none());
}

#[test]
fn reader_is_requeued_by_write() {
    let mut app: AppState<String, Comp> = AppState::new();
    let k = template_key();
    app.data_set(k.clone(), "bart".to_string());
    let v = TypedKey::new(TEMPLATED, "view-1");
    app.insert_binding(v.clone(), Comp::Templated("a".into()), 10);
    let ctx = AppContext::new(Some(v.clone()));
    assert_eq!(ctx.data(&mut app, &k).unwrap(), "bart");
    app.data_mut(&k).unwrap().push('!');
    let jobs = app.process_render_queue();
    assert_eq!(jobs.len(), 1);
    assert_eq!(jobs[0].view, v);
    assert_eq!(jobs[0].node, 10);
    // the queue is empty again
    assert!(app.process_render_queue().is_empty());
}

#[test]
fn read_without_view_records_nothing() {
    let mut app: AppState<String, Comp> = AppState::new();
    let k = template_key();
    app.data_set(k.clone(), "bart".to_string());
    app.insert_binding(TypedKey::new(TEMPLATED, "v"), Comp::Plain("p".into()), 10);
    let ctx = AppContext::new(None);
    assert_eq!(ctx.data(&mut app, &k).unwrap(), "bart");
    *ctx.data_mut(&mut app, &k).unwrap() = "maud".into();
    assert!(app.process_render_queue().is_empty());
}

#[test]
fn observers_recorded_once() {
    let mut app: AppState<String, Comp> = AppState::new();
    let k = template_key();
    app.data_set(k.clone(), "x".to_string());
    let v = TypedKey::new(TEMPLATED, "v");
    app.insert_binding(v.clone(), Comp::Plain("p".into()), 10);
    app.add_observer(k.clone(), v.clone());
    app.add_observer(k.clone(), v.clone());
    app.data_mut(&k).unwrap();
    let jobs = app.process_render_queue();
    assert_eq!(jobs.len(), 1);
}

#[test]
fn drain_deduplicates_and_skips_unmounted() {
    let mut app: AppState<String, Comp> = AppState::new();
    let a = TypedKey::new(COUNTER, "a");
    let b = TypedKey::new(COUNTER, "b");
    app.insert_binding(a.clone(), Comp::Counter(0), 1);
    app.insert_binding(b.clone(), Comp::Counter(0), 2);
    app.enqueue_render(b.clone());
    app.enqueue_render(TypedKey::new(COUNTER, "gone"));
    app.enqueue_render(a.clone());
    app.enqueue_render(b.clone());
    let jobs = app.process_render_queue();
    let views: Vec<TypedKey> = jobs.iter().map(|j| j.view.clone()).collect();
    assert_eq!(views, vec![b, a]);
    assert_eq!(jobs[0].node, 2);
    assert_eq!(jobs[1].node, 1);
}

#[test]
fn empty_drain_writes_nothing() {
    let mut app: AppState<String, Comp> = AppState::new();
    let mut dom = Dom::default();
    let v = mount(&mut app, &mut dom, COUNTER, Comp::Counter(0), 7);
    v.on(&mut app, EventType::Click, 0).unwrap();
    let before = dom.writes;
    let jobs = drain(&mut app, &mut dom);
    assert!(jobs.is_empty());
    assert_eq!(dom.writes, before);
}

#[test]
fn selector_handler_attaches_only_new_nodes() {
    let mut app: AppState<String, Comp> = AppState::new();
    let v = app.insert_binding(TypedKey::new(TODO, "list"), Comp::Plain("x".into()), 5);
    let first = v.on_each(&mut app, EventType::Click, "li", 9, vec![]).unwrap();
    assert_eq!(first.len(), 0);
    let rounds: Vec<Vec<u64>> = vec![vec![11, 12, 13], vec![11, 12, 13], vec![11, 12, 13, 14, 15]];
    let mut attached = Vec::new();
    for m in rounds {
        let listens = app.reattach_handlers(v.key(), &vec![m]).unwrap();
        attached.push(listens);
    }
    assert_eq!(attached.iter().map(|l| l.len()).collect::<Vec<_>>(), vec![3, 0, 2]);
    assert_eq!(attached[0][0], Listen { node: 11, event: EventType::Click, callback: 9, index: 0 });
    assert_eq!(attached[2][0], Listen { node: 14, event: EventType::Click, callback: 9, index: 3 });
    assert_eq!(attached[2][1], Listen { node: 15, event: EventType::Click, callback: 9, index: 4 });
    let h = app.binding(v.key()).unwrap().handler(0);
    assert_eq!(h.registered, vec![11, 12, 13, 14, 15]);
}

#[test]
fn removed_nodes_are_dropped_and_new_ones_attached() {
    let mut app: AppState<String, Comp> = AppState::new();
    let v = app.insert_binding(TypedKey::new(TODO, "list"), Comp::Plain("x".into()), 5);
    let first = v.on_each(&mut app, EventType::Input, "input", 1, vec![21, 22]).unwrap();
    assert_eq!(first.len(), 2);
    assert_eq!(first[1], Listen { node: 22, event: EventType::Input, callback: 1, index: 1 });
    let again = app.reattach_handlers(v.key(), &vec![vec![22, 23]]).unwrap();
    assert_eq!(again, vec![Listen { node: 23, event: EventType::Input, callback: 1, index: 1 }]);
    // 21 was dropped from the handler, so it counts as new once it returns
    let back = app.reattach_handlers(v.key(), &vec![vec![21, 22, 23]]).unwrap();
    assert_eq!(back, vec![Listen { node: 21, event: EventType::Input, callback: 1, index: 0 }]);
}

#[test]
fn root_handler_survives_rerenders() {
    let mut app: AppState<String, Comp> = AppState::new();
    let mut dom = Dom::default();
    let v = mount(&mut app, &mut dom, COUNTER, Comp::Counter(0), 7);
    let l = v.on(&mut app, EventType::Click, 3).unwrap();
    assert_eq!(l, Listen { node: 7, event: EventType::Click, callback: 3, index: 0 });
    dom.attach(vec![l]);
    for _ in 0..10 {
        if let Ok(Comp::Counter(n)) = v.data_mut(&mut app) {
            *n += 1;
        }
        let jobs = drain(&mut app, &mut dom);
        assert_eq!(jobs.len(), 1);
    }
    let b = app.binding(v.key()).unwrap();
    assert_eq!(b.handler_count(), 1);
    assert_eq!(b.handler(0).selector, None);
    assert_eq!(b.handler(0).registered, vec![7]);
    assert_eq!(dom.listeners_on(7), 1);
    assert_eq!(dom.markup[&7], "<p>Count: 10</p><button>+1</button>");
}

#[test]
fn scenario_counter() {
    let mut app: AppState<String, Comp> = AppState::new();
    let mut dom = Dom::default();
    let v = mount(&mut app, &mut dom, COUNTER, Comp::Counter(0), 7);
    assert!(dom.markup[&7].contains("Count: 0"));
    let listens = v.on_each(&mut app, EventType::Click, "button", 0, dom.query_all(7, "button")).unwrap();
    assert_eq!(listens.len(), 1);
    dom.attach(listens);
    for _ in 0..5 {
        // the click handler
        match v.data_mut(&mut app).unwrap() {
            Comp::Counter(n) => *n += 1,
            _ => unreachable!(),
        }
        drain(&mut app, &mut dom);
    }
    assert!(dom.markup[&7].contains("Count: 5"));
    assert_eq!(v.data(&app).unwrap(), &Comp::Counter(5));
    // the button kept its identity, so it was never attached twice
    assert_eq!(dom.listeners_on(7001), 1);
}

#[test]
fn scenario_shared_global_key() {
    let mut app: AppState<String, Comp> = AppState::new();
    let mut dom = Dom::default();
    app.data_set(template_key(), "bart".to_string());
    let one = mount(&mut app, &mut dom, TEMPLATED, Comp::Templated("counter".into()), 1);
    let two = mount(&mut app, &mut dom, TEMPLATED, Comp::Templated("todo".into()), 2);
    let three = mount(&mut app, &mut dom, TEMPLATED, Comp::Plain("static".into()), 3);
    dom.attach(vec![three.on(&mut app, EventType::Click, 5).unwrap()]);
    assert_eq!(dom.markup[&1], "<div>counter in bart</div>");
    assert_eq!(dom.markup[&2], "<div>todo in bart</div>");
    let third_markup = dom.markup[&3].clone();
    let third_writes = dom.writes;

    // a handler of the first component switches the template
    let ctx = AppContext::new(Some(one.key().clone()));
    *ctx.data_mut(&mut app, &template_key()).unwrap() = "maud".to_string();
    let jobs = drain(&mut app, &mut dom);

    let views: Vec<TypedKey> = jobs.iter().map(|j| j.view.clone()).collect();
    assert_eq!(views.len(), 2);
    assert!(views.contains(one.key()));
    assert!(views.contains(two.key()));
    assert_eq!(dom.markup[&1], "<div>counter in maud</div>");
    assert_eq!(dom.markup[&2], "<div>todo in maud</div>");
    assert_eq!(dom.markup[&3], third_markup);
    assert_eq!(dom.writes, third_writes + 2);
    let b = app.binding(three.key()).unwrap();
    assert_eq!(b.handler_count(), 1);
    assert_eq!(b.handler(0).registered, vec![3]);
}

#[test]
fn scenario_todo_list() {
    let mut app: AppState<String, Comp> = AppState::new();
    let mut dom = Dom::default();
    let items = vec![("Blog about Quasar".to_string(), false), ("Write docs".to_string(), false)];
    let v = mount(&mut app, &mut dom, TODO, Comp::Todo(items), 9);
    let boxes = v.on_each(&mut app, EventType::Click, "input", 1, dom.query_all(9, "input")).unwrap();
    assert_eq!(boxes.len(), 2);
    dom.attach(boxes);

    // the add-item handler
    match v.data_mut(&mut app).unwrap() {
        Comp::Todo(items) => items.push(("Ship it".to_string(), false)),
        _ => unreachable!(),
    }
    drain(&mut app, &mut dom);
    assert!(dom.markup[&9].contains("(3 items)"));
    let new_box = 9003;
    let on_new: Vec<&Listen> = dom.listeners.iter().filter(|l| l.node == new_box).collect();
    assert_eq!(on_new.len(), 1);
    assert_eq!(on_new[0].index, 2);
    assert_eq!(dom.listeners_on(9001), 1);
    assert_eq!(dom.listeners_on(9002), 1);

    // the checkbox handler, fired on the new item
    let index = on_new[0].index;
    match v.data_mut(&mut app).unwrap() {
        Comp::Todo(items) => items[index].1 = true,
        _ => unreachable!(),
    }
    drain(&mut app, &mut dom);
    match v.data(&app).unwrap() {
        Comp::Todo(items) => {
            assert_eq!(items.iter().map(|i| i.1).collect::<Vec<_>>(), vec![false, false, true]);
        }
        _ => unreachable!(),
    }
}

#[test]
fn access_errors() {
    let mut app: AppState<String, Comp> = AppState::new();
    let ghost_view = ViewHandle::new(TypedKey::new(COUNTER, "nobody"), 1);
    assert_eq!(ghost_view.data(&app).unwrap_err(), StateError::MissingKey);
    assert_eq!(ghost_view.data_mut(&mut app).unwrap_err(), StateError::MissingKey);
    assert_eq!(ghost_view.on(&mut app, EventType::Click, 0).unwrap_err(), StateError::MissingKey);
    assert_eq!(ghost_view.on_each(&mut app, EventType::Click, "a", 0, vec![]).unwrap_err(), StateError::MissingKey);
    assert_eq!(app.begin_render(ghost_view.key()).unwrap_err(), StateError::MissingKey);
    assert_eq!(app.end_render(ghost_view.key(), Comp::Counter(0)).unwrap_err(), StateError::MissingKey);
    assert_eq!(app.reattach_handlers(ghost_view.key(), &vec![]).unwrap_err(), StateError::MissingKey);
    assert!(app.handler_selectors(ghost_view.key()).is_none());

    let v = app.insert_binding(TypedKey::new(COUNTER, "c"), Comp::Counter(4), 2);
    v.on(&mut app, EventType::Click, 0).unwrap();
    assert_eq!(app.reattach_handlers(v.key(), &vec![]).unwrap_err(), StateError::MatchCount);

    // while the component is out for rendering, its data cannot be reached
    let comp = app.begin_render(v.key()).unwrap();
    assert_eq!(comp, Comp::Counter(4));
    assert_eq!(v.data(&app).unwrap_err(), StateError::Reentrancy);
    assert_eq!(v.data_mut(&mut app).unwrap_err(), StateError::Reentrancy);
    assert_eq!(app.begin_render(v.key()).unwrap_err(), StateError::Reentrancy);
    // a refused write queues nothing
    assert!(app.process_render_queue().is_empty());
    app.end_render(v.key(), comp).unwrap();
    assert_eq!(v.data(&app).unwrap(), &Comp::Counter(4));
}

#[test]
fn view_keys_are_fresh_uuids() {
    let mut app: AppState<String, Comp> = AppState::new();
    let a = app.new_view_key(COUNTER).unwrap();
    assert_eq!(a.tid, COUNTER);
    assert_eq!(a.name.len(), 36);
    assert_eq!(a.name.matches('-').count(), 4);
    app.insert_binding(a.clone(), Comp::Counter(0), 1);
    let b = app.new_view_key(COUNTER).unwrap();
    assert_ne!(a, b);
}

#[test]
fn props_fall_back_to_attributes() {
    let keys = vec!["value".to_string(), "data-template".to_string(), "title".to_string()];
    let props = vec!["typed".to_string(), String::new(), String::new()];
    let attrs = vec!["ignored".to_string(), "maud".to_string(), String::new()];
    let got = lookup_props(&keys, &props, &attrs);
    assert_eq!(
        got,
        vec![
            ("value".to_string(), "typed".to_string()),
            ("data-template".to_string(), "maud".to_string()),
            ("title".to_string(), String::new()),
        ]
    );
    assert!(lookup_props(&vec![], &vec![], &vec![]).is_empty());
}

#[test]
fn events_read_in_their_view_scope() {
    let mut app: AppState<String, Comp> = AppState::new();
    let k = template_key();
    app.data_set(k.clone(), "bart".to_string());
    let v = app.insert_binding(TypedKey::new(TEMPLATED, "v"), Comp::Plain("p".into()), 4);
    let evt = Event::new(4001, v.clone(), 2);
    assert_eq!(evt.target, 4001);
    assert_eq!(evt.index, 2);
    assert_eq!(evt.binding.key(), v.key());
    assert_eq!(evt.app.data(&mut app, &k).unwrap(), "bart");
    app.data_mut(&k).unwrap();
    let jobs = app.process_render_queue();
    assert_eq!(jobs.len(), 1);
    assert_eq!(&jobs[0].view, v.key());
}
