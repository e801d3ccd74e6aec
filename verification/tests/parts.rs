use jubako::ident::{draw_unused, holds, uuid_text, EventHandleId};
use jubako::server::{route_prefix, StaticFile};
use jubako::simple_window::{
    is_draw_request, DrawOutcome, SimpleWindow, SimpleWindowContext, SimpleWindowRunner,
};
use jubako::vnode::command::{DifferenceCommand, StyleDifferenceCommand};
use jubako::vnode::event::{Element, Event, KeyboardEvent, VNodeEvent, VNodeEventKind, WheelEvent};
use jubako::vnode::event_list::{VNodeEventType, EVENT_KINDS};
use jubako::vnode::handler::{BundledEventHandler, Delivery, Subscription};
use jubako::vnode::message_handled_vnode::MessageHandledVNode;
use jubako::vnode::names::{copy_names, diff_names, has_name, reversed, same_names};
use jubako::vnode::portal_expanded_vnode::{PortalExpandedVNode, PortalExpandedVNodes};
use jubako::vnode::registry::EventRegistry;
use jubako::vnode::rendered_vnode::{diff_vnodes, release, RenderedVNode, RenderedVNodes};
use jubako::vnode::style_extracted_vnode::{
    compile_rule, style_class, StyleExtractedVNode, StyleRegistry,
};
use jubako::vnode::{VNode, VNodeEventHandler, VNodeEventHandlers};
use jubako::{DirtyFlag, Message};
use std::sync::atomic::{AtomicI32, Ordering};
use std::sync::Arc;
use tokio::sync::mpsc::unbounded_channel;

#[derive(Debug, Clone, PartialEq)]
enum Note {
    Key(String),
    Scrolled(u64),
    Plain,
}

fn is_message<T: Message>(_: &T) {}

fn strings(names: &[&str]) -> Vec<String> {
    names.iter().map(|name| name.to_string()).collect()
}

#[test]
fn a_handle_is_written_as_a_hyphenated_uuid() {
    let id = EventHandleId(0xa1a2a3a4_b1b2_c1c2_d1d2_d3d4d5d6d7d8);
    assert_eq!(id.to_text(), "a1a2a3a4-b1b2-c1c2-d1d2-d3d4d5d6d7d8");
    assert_eq!(uuid_text(0), "00000000-0000-0000-0000-000000000000");
    assert_eq!(uuid_text(u128::MAX), "ffffffff-ffff-ffff-ffff-ffffffffffff");
    assert_eq!(uuid_text(0x10), "00000000-0000-0000-0000-000000000010");
}

#[test]
fn a_new_handle_is_a_version_four_uuid() {
    let first = EventHandleId::new();
    let second = EventHandleId::new();
    for id in [first, second] {
        assert_eq!((id.0 >> 76) & 0xf, 4);
        assert_eq!((id.0 >> 62) & 0x3, 2);
        assert_eq!(id.to_text().len(), 36);
    }
    assert_ne!(first, second);
}

#[test]
fn an_unused_identifier_avoids_the_taken_ones() {
    let taken: Vec<u128> = (0..50).collect();
    let id = draw_unused(&taken);
    assert!(!holds(&taken, id));
    assert!(holds(&taken, 49));
    assert!(!holds(&taken, 50));
}

#[test]
fn an_unused_handle_is_not_registered() {
    let (sender, _receiver) = unbounded_channel::<Note>();
    let bundled = BundledEventHandler::bundle(VNodeEventHandlers::default(), sender);
    let mut registry = EventRegistry::new();
    let id = registry.unused_handle();
    assert!(!registry.contains(id));
    registry.register(id, bundled.handler);
    assert!(registry.contains(id));
    assert_eq!(registry.len(), 1);
    let other = registry.unused_handle();
    assert_ne!(other, id);
    registry.deregister(id);
    assert!(!registry.contains(id));
    assert_eq!(registry.len(), 0);
    assert_ne!(registry.unused_handle(), id);
}

#[test]
fn the_catalog_lists_every_kind_in_order() {
    assert_eq!(EVENT_KINDS, 91);
    assert_eq!(VNodeEventType::at(0), VNodeEventType::Abort);
    assert_eq!(VNodeEventType::at(11), VNodeEventType::Click);
    assert_eq!(VNodeEventType::at(90), VNodeEventType::Wheel);
    for i in 0..EVENT_KINDS {
        for j in 0..i {
            assert_ne!(VNodeEventType::at(i), VNodeEventType::at(j));
        }
    }
}

#[test]
fn an_event_knows_its_kind() {
    assert_eq!(VNodeEventKind::Abort(Event::default()).event_type(), VNodeEventType::Abort);
    assert_eq!(
        VNodeEventKind::KeyDown(KeyboardEvent::default()).event_type(),
        VNodeEventType::KeyDown
    );
    assert_eq!(VNodeEventKind::Wheel(WheelEvent::default()).event_type(), VNodeEventType::Wheel);
}

#[test]
fn handlers_declare_their_subscription() {
    let plain: VNodeEventHandler<Event, Note> = VNodeEventHandler::handle(|_| Note::Plain);
    let prevent: VNodeEventHandler<Event, Note> =
        VNodeEventHandler::handle_prevent_default(|_| Note::Plain);
    let unset: VNodeEventHandler<Event, Note> = VNodeEventHandler::default();
    assert!(matches!(plain, VNodeEventHandler::Handle { .. }));
    assert!(matches!(prevent, VNodeEventHandler::HandlePreventDefault { .. }));
    assert!(matches!(unset, VNodeEventHandler::Unset));
    assert_eq!(plain.state(), Subscription::Plain);
    assert_eq!(prevent.state(), Subscription::PreventDefault);
    assert_eq!(unset.state(), Subscription::Unset);
    assert_eq!(plain.respond(Event::default()), Some(Note::Plain));
    assert_eq!(unset.respond(Event::default()), None);
    is_message(&Note::Plain);
}

#[test]
fn bundling_lists_the_kinds_in_catalog_order() {
    let (sender, mut receiver) = unbounded_channel();
    let handlers = VNodeEventHandlers {
        wheel: VNodeEventHandler::handle(|event: WheelEvent| Note::Scrolled(event.delta_y)),
        key_down: VNodeEventHandler::handle(|event: KeyboardEvent| Note::Key(event.key)),
        submit: VNodeEventHandler::handle_prevent_default(|_| Note::Plain),
        abort: VNodeEventHandler::handle(|_| Note::Plain),
        drop: VNodeEventHandler::handle_prevent_default(|_| Note::Plain),
        ..Default::default()
    };
    assert_eq!(handlers.subscription(VNodeEventType::Wheel), Subscription::Plain);
    assert_eq!(handlers.subscription(VNodeEventType::Submit), Subscription::PreventDefault);
    assert_eq!(handlers.subscription(VNodeEventType::Click), Subscription::Unset);

    let bundled = BundledEventHandler::bundle(handlers, sender);
    assert_eq!(
        bundled.handle_events,
        vec![VNodeEventType::Abort, VNodeEventType::KeyDown, VNodeEventType::Wheel]
    );
    assert_eq!(
        bundled.handle_prevent_default_events,
        vec![VNodeEventType::Drop, VNodeEventType::Submit]
    );

    let key = KeyboardEvent { key: "Enter".to_string(), ..Default::default() };
    assert_eq!(bundled.handler.call(VNodeEventKind::KeyDown(key.clone())), Delivery::Sent);
    assert_eq!(receiver.try_recv().ok(), Some(Note::Key("Enter".to_string())));
    assert_eq!(bundled.handler.call(VNodeEventKind::KeyUp(key)), Delivery::NotSubscribed);
    let wheel = WheelEvent { delta_y: 2.5f64.to_bits(), ..Default::default() };
    assert_eq!(bundled.handler.call(VNodeEventKind::Wheel(wheel)), Delivery::Sent);
    assert_eq!(receiver.try_recv().ok(), Some(Note::Scrolled(2.5f64.to_bits())));
    assert!(receiver.try_recv().is_err());
}

#[test]
fn a_registry_dispatches_by_handle() {
    let (sender, mut receiver) = unbounded_channel();
    let handlers = VNodeEventHandlers {
        click: VNodeEventHandler::handle(|_| Note::Plain),
        ..Default::default()
    };
    let bundled = BundledEventHandler::bundle(handlers, sender);
    let mut registry = EventRegistry::new();
    registry.register(7, bundled.handler);
    let click = || VNodeEventKind::Click(Default::default());
    assert_eq!(registry.dispatch(EventHandleId(7), click()), Some(Delivery::Sent));
    assert_eq!(receiver.try_recv().ok(), Some(Note::Plain));
    assert_eq!(registry.dispatch(EventHandleId(8), click()), None);
    assert_eq!(
        registry.dispatch(EventHandleId(7), VNodeEventKind::Abort(Event::default())),
        Some(Delivery::NotSubscribed)
    );
}

#[test]
fn a_rule_is_compiled_and_minified() {
    assert_eq!(style_class(0x10), "style-00000000-0000-0000-0000-000000000010");
    assert_eq!(
        compile_rule(0x10, &"color: red; width: 100%;".to_string()),
        Some(".style-00000000-0000-0000-0000-000000000010{color:red;width:100%}".to_string())
    );
    assert_eq!(compile_rule(0x10, &"color: red; } p { x".to_string()), None);
}

#[test]
fn extraction_turns_styles_into_classes() {
    let (sender, _receiver) = unbounded_channel::<Note>();
    let view: VNode<Note> = VNode::Element {
        tag: "div".to_string(),
        class: strings(&["box"]),
        props: vec![],
        event: VNodeEventHandlers::default(),
        children: vec![VNode::Text { text: "t".to_string() }],
        style: Some("color: red;".to_string()),
    };
    let bound = MessageHandledVNode::handle_message(view, sender);
    match &bound {
        MessageHandledVNode::Element { style, class, .. } => {
            assert_eq!(style, &Some("color: red;".to_string()));
            assert_eq!(class, &strings(&["box"]));
        }
        _ => panic!("the root stays an element"),
    }
    let mut styles = StyleRegistry::new();
    let (tree, commands) =
        StyleExtractedVNode::extract(bound, &mut styles).expect("the style is valid");
    assert_eq!(styles.len(), 1);
    let id = styles.entries()[0].id;
    assert_eq!(styles.entries()[0].text, "color: red;");
    match &tree {
        StyleExtractedVNode::Element { class, children, .. } => {
            assert_eq!(class, &vec!["box".to_string(), style_class(id)]);
            assert!(matches!(&children[0], StyleExtractedVNode::Text { text } if text == "t"));
        }
        _ => panic!("the root stays an element"),
    }
    assert_eq!(
        commands,
        vec![StyleDifferenceCommand::AddStyle {
            class_name: style_class(id),
            value: format!(".{}{{color:red}}", style_class(id)),
        }]
    );
}

#[test]
fn expansion_parts_main_and_portals() {
    let (sender, _receiver) = unbounded_channel::<Note>();
    let node = |tag: &str, children: Vec<VNode<Note>>| VNode::Element {
        tag: tag.to_string(),
        class: vec![],
        props: vec![],
        event: VNodeEventHandlers::default(),
        children,
        style: None,
    };
    let view = node(
        "root",
        vec![
            VNode::Portal {
                children: vec![VNode::Portal { children: vec![node("x", vec![])] }, node("y", vec![])],
            },
            node("z", vec![]),
        ],
    );
    let mut styles = StyleRegistry::new();
    let bound = MessageHandledVNode::handle_message(view, sender);
    let (tree, _) = StyleExtractedVNode::extract(bound, &mut styles).expect("no styles");
    let forests = PortalExpandedVNodes::expand(tree);
    let tag_of = |node: &PortalExpandedVNode<Note>| match node {
        PortalExpandedVNode::Element { tag, .. } => tag.clone(),
        PortalExpandedVNode::Text { text } => text.clone(),
    };
    assert_eq!(forests.main.len(), 1);
    match &forests.main[0] {
        PortalExpandedVNode::Element { tag, children, .. } => {
            assert_eq!(tag, "root");
            assert_eq!(children.iter().map(tag_of).collect::<Vec<_>>(), vec!["z"]);
        }
        _ => panic!("the root stays an element"),
    }
    assert_eq!(forests.portals.iter().map(tag_of).collect::<Vec<_>>(), vec!["y", "x"]);
}

#[test]
fn a_text_root_is_its_own_main_forest() {
    let (sender, _receiver) = unbounded_channel::<Note>();
    let mut styles = StyleRegistry::new();
    let bound =
        MessageHandledVNode::handle_message(VNode::Text { text: "t".to_string() }, sender);
    let (tree, commands) = StyleExtractedVNode::extract(bound, &mut styles).expect("no styles");
    assert!(commands.is_empty());
    let forests = PortalExpandedVNodes::expand(tree);
    assert!(matches!(&forests.main[..], [PortalExpandedVNode::Text { text }] if text == "t"));
    assert!(forests.portals.is_empty());
}

#[test]
fn a_rendered_node_differs_from_what_it_does_not_show() {
    let (sender, _receiver) = unbounded_channel::<Note>();
    let mut rendered = RenderedVNodes::new();
    assert!(rendered.main.is_empty() && rendered.portals.is_empty());
    let mut events = EventRegistry::new();
    let forests = |text: &str| PortalExpandedVNodes {
        main: vec![PortalExpandedVNode::Element {
            tag: "p".to_string(),
            class: strings(&["a"]),
            props: vec![],
            event: BundledEventHandler::bundle(VNodeEventHandlers::default(), sender.clone()),
            children: vec![PortalExpandedVNode::Text { text: text.to_string() }],
        }],
        portals: vec![],
    };
    let (main, portals) = rendered.diff(forests("one"), &mut events);
    assert_eq!(main.len(), 1);
    assert!(portals.is_empty());
    assert!(matches!(&main[0], DifferenceCommand::InsertElement { index: 0, .. }));

    let same = forests("one");
    let other = forests("two");
    assert!(!rendered.main[0].is_different(&same.main[0]));
    assert!(rendered.main[0].is_different(&other.main[0]));
    let text: PortalExpandedVNode<Note> = PortalExpandedVNode::Text { text: "one".to_string() };
    assert!(rendered.main[0].is_different(&text));
    let shown = RenderedVNode::Text { text: "one".to_string() };
    assert!(!shown.is_different(&text));
}

#[test]
fn names_are_diffed_in_order() {
    let current = strings(&["a", "b", "a", "c"]);
    let next = strings(&["c", "d", "d", "a", "e"]);
    assert!(has_name(&current, &"b".to_string()));
    assert!(!has_name(&current, &"d".to_string()));
    assert!(same_names(&current, &copy_names(&current)));
    assert!(!same_names(&current, &next));
    let (added, dropped) = diff_names(current, &next);
    assert_eq!(added, strings(&["d", "e"]));
    assert_eq!(dropped, strings(&["b"]));
    assert_eq!(reversed(vec![1, 2, 3]), vec![3, 2, 1]);
}

#[test]
fn a_route_loses_its_trailing_slashes() {
    assert_eq!(route_prefix("/test-window/"), Some("/test-window".to_string()));
    assert_eq!(route_prefix("/a/b"), Some("/a/b".to_string()));
    assert_eq!(route_prefix("/a//"), Some("/a".to_string()));
    assert_eq!(route_prefix("/fenêtre/"), Some("/fenêtre".to_string()));
    assert_eq!(route_prefix("/"), None);
    assert_eq!(route_prefix("///"), None);
    assert_eq!(route_prefix(""), None);
    let file = StaticFile("index.html");
    assert_eq!(file.0, "index.html");
}

#[test]
fn only_the_draw_request_asks_for_a_draw() {
    assert!(is_draw_request("\"DRAW\""));
    assert!(!is_draw_request("DRAW"));
    assert!(!is_draw_request("\"draw\""));
    assert!(!is_draw_request(""));
    assert!(DirtyFlag::ShouldRender.should_render());
    assert!(!DirtyFlag::Clean.should_render());
}

struct Counter {
    count: AtomicI32,
    portal_root: bool,
}

fn painted(style: &str) -> VNode<Note> {
    VNode::Element {
        tag: "div".to_string(),
        class: vec![],
        props: vec![],
        event: VNodeEventHandlers::default(),
        children: vec![],
        style: Some(style.to_string()),
    }
}

impl SimpleWindow for Counter {
    type Message = Note;

    fn update(&self, message: Note) -> DirtyFlag {
        match message {
            Note::Plain => DirtyFlag::Clean,
            _ => {
                self.count.fetch_add(1, Ordering::SeqCst);
                DirtyFlag::ShouldRender
            }
        }
    }

    fn view(&self) -> VNode<Note> {
        if self.portal_root {
            return VNode::Portal { children: vec![] };
        }
        VNode::Element {
            tag: "div".to_string(),
            class: vec![],
            props: vec![],
            event: VNodeEventHandlers {
                click: VNodeEventHandler::handle(|_| Note::Scrolled(1)),
                ..Default::default()
            },
            children: vec![VNode::Text { text: self.count.load(Ordering::SeqCst).to_string() }],
            style: None,
        }
    }
}

#[test]
fn a_session_draws_only_when_dirty() {
    let (sender, mut receiver) = unbounded_channel();
    let window = Arc::new(Counter { count: AtomicI32::new(0), portal_root: false });
    let mut runner = SimpleWindowRunner::new(window.clone(), sender);
    assert_eq!(runner.vnode_processor.styles.len(), 0);
    assert!(runner.vnode_processor.current_vnode.main.is_empty());
    assert!(runner.vnode_processor.current_vnode.portals.is_empty());

    assert!(matches!(runner.draw(false), DrawOutcome::Idle));
    assert_eq!(runner.vnode_processor.events.len(), 0);
    let first = match runner.draw(true) {
        DrawOutcome::Drawn(commands) => commands,
        _ => panic!("a dirty view is drawn"),
    };
    let handle_id = match &first.main[..] {
        [DifferenceCommand::InsertElement { event, .. }] => event.handle_id,
        other => panic!("the view is inserted: {:?}", other),
    };
    assert!(matches!(runner.draw(false), DrawOutcome::Idle));

    let click = VNodeEvent { handle_id, kind: VNodeEventKind::Click(Default::default()) };
    assert_eq!(runner.handle_event(click), Some(Delivery::Sent));
    let message = receiver.try_recv().expect("the click sends a message");
    assert_eq!(message, Note::Scrolled(1));
    assert!(runner.update(message));
    assert!(!runner.update(Note::Plain));
    match runner.draw(true) {
        DrawOutcome::Drawn(commands) => match &commands.main[..] {
            [DifferenceCommand::UpdateElement { children, .. }] => assert_eq!(
                children,
                &vec![DifferenceCommand::UpdateText { index: 0, new_text: "1".to_string() }]
            ),
            other => panic!("the count is updated: {:?}", other),
        },
        _ => panic!("a dirty view is drawn"),
    }
    window.disconnected();
}

#[test]
fn a_portal_root_is_refused() {
    let (sender, _receiver) = unbounded_channel();
    let window = Counter { count: AtomicI32::new(0), portal_root: true };
    let mut runner = SimpleWindowRunner::new(window, sender);
    assert!(matches!(runner.draw(true), DrawOutcome::PortalRoot));
    assert_eq!(runner.vnode_processor.events.len(), 0);
}

#[test]
fn a_session_reports_an_invalid_style() {
    let (sender, _receiver) = unbounded_channel();
    let window = Counter { count: AtomicI32::new(0), portal_root: false };
    let mut runner = SimpleWindowRunner::new(window, sender);
    match runner.draw_view(painted("color: red; } p { x")) {
        DrawOutcome::InvalidStyle(error) => assert_eq!(error.text, "color: red; } p { x"),
        _ => panic!("the style is refused"),
    }
    assert_eq!(runner.vnode_processor.styles.len(), 0);
    assert_eq!(runner.vnode_processor.events.len(), 0);
    assert!(runner.vnode_processor.current_vnode.main.is_empty());

    assert!(matches!(runner.draw_view(painted("color: red;")), DrawOutcome::Drawn(_)));
    assert_eq!(runner.vnode_processor.styles.len(), 1);
    assert!(matches!(
        runner.draw_view(VNode::Portal { children: vec![] }),
        DrawOutcome::PortalRoot
    ));
    assert_eq!(runner.vnode_processor.events.len(), 1);
}

#[test]
fn releasing_a_node_takes_out_the_callbacks_below_it() {
    let (sender, _receiver) = unbounded_channel::<Note>();
    let mut events = EventRegistry::new();
    let leaf = |tag: &str| PortalExpandedVNode::Element {
        tag: tag.to_string(),
        class: vec![],
        props: vec![],
        event: BundledEventHandler::bundle(VNodeEventHandlers::default(), sender.clone()),
        children: vec![],
    };
    let tree = PortalExpandedVNode::Element {
        tag: "ul".to_string(),
        class: vec![],
        props: vec![],
        event: BundledEventHandler::bundle(VNodeEventHandlers::default(), sender.clone()),
        children: vec![leaf("li"), PortalExpandedVNode::Text { text: "t".to_string() }, leaf("li")],
    };
    let (rendered, commands) = diff_vnodes(vec![], vec![tree, leaf("p")], &mut events);
    assert_eq!(rendered.len(), 2);
    assert_eq!(commands.len(), 2);
    assert_eq!(events.len(), 4);

    release(&rendered[0], &mut events);
    assert_eq!(events.len(), 1);
    match &rendered[1] {
        RenderedVNode::Element { event, .. } => assert!(events.contains(event.id.0)),
        other => panic!("an element was rendered: {:?}", other),
    }

    let (rest, commands) = diff_vnodes(vec![], vec![], &mut events);
    assert!(rest.is_empty() && commands.is_empty());
    assert_eq!(events.len(), 1);
}

#[test]
fn a_context_sends_into_the_channel() {
    let (sender, mut receiver) = unbounded_channel();
    let context = SimpleWindowContext::new(sender);
    assert_eq!(context.dispatch(Note::Plain), Ok(()));
    assert_eq!(context.clone().dispatch(Note::Scrolled(3)), Ok(()));
    assert_eq!(receiver.try_recv().ok(), Some(Note::Plain));
    assert_eq!(receiver.try_recv().ok(), Some(Note::Scrolled(3)));
    drop(receiver);
    assert_eq!(context.dispatch(Note::Plain), Err(Note::Plain));
}

#[test]
fn event_payloads_default_to_nothing() {
    let element = Element::default();
    assert_eq!(element.tag_name, "");
    assert_eq!(element.client_height, 0);
    assert_eq!(Event::default().target, None);
    assert_eq!(WheelEvent::default().delta_x, 0.0f64.to_bits());
}
