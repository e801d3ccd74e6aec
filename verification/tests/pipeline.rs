use jubako::ident::EventHandleId;
use jubako::vnode::command::{
    DifferenceClass, DifferenceCommand, DifferenceCommands, DifferenceEvent, DifferenceProps,
    HandleEvent, StyleDifferenceCommand,
};
use jubako::vnode::event::{MouseEvent, VNodeEvent, VNodeEventKind};
use jubako::vnode::event_list::VNodeEventType;
use jubako::vnode::handler::Delivery;
use jubako::vnode::message_handled_vnode::MessageHandledVNode;
use jubako::vnode::processor::Processor;
use jubako::vnode::rendered_vnode::RenderedVNode;
use jubako::vnode::{VNode, VNodeEventHandler, VNodeEventHandlers};
use tokio::sync::mpsc::{unbounded_channel, UnboundedSender};

#[derive(Debug, Clone, PartialEq)]
enum Msg {
    Increment,
    Decrement,
}

fn text(content: &str) -> VNode<Msg> {
    VNode::Text { text: content.to_string() }
}

fn element(tag: &str, children: Vec<VNode<Msg>>) -> VNode<Msg> {
    VNode::Element {
        tag: tag.to_string(),
        class: vec![],
        props: vec![],
        event: VNodeEventHandlers::default(),
        children,
        style: None,
    }
}

fn styled(tag: &str, style: &str, children: Vec<VNode<Msg>>) -> VNode<Msg> {
    VNode::Element {
        tag: tag.to_string(),
        class: vec![],
        props: vec![],
        event: VNodeEventHandlers::default(),
        children,
        style: Some(style.to_string()),
    }
}

fn named(tag: &str, class: Vec<&str>, props: Vec<&str>) -> VNode<Msg> {
    VNode::Element {
        tag: tag.to_string(),
        class: class.into_iter().map(|c| c.to_string()).collect(),
        props: props.into_iter().map(|p| p.to_string()).collect(),
        event: VNodeEventHandlers::default(),
        children: vec![],
        style: None,
    }
}

fn button(label: &str, message: Msg) -> VNode<Msg> {
    VNode::Element {
        tag: "button".to_string(),
        class: vec![],
        props: vec![],
        event: VNodeEventHandlers {
            click: VNodeEventHandler::handle(move |_| message.clone()),
            ..Default::default()
        },
        children: vec![text(label)],
        style: Some("min-width: 120px; height: 32px;".to_string()),
    }
}

fn counter(count: i32) -> VNode<Msg> {
    element(
        "div",
        vec![
            text(&count.to_string()),
            button("increment", Msg::Increment),
            button("decrement", Msg::Decrement),
        ],
    )
}

fn draw(
    processor: &mut Processor<Msg>,
    sender: &UnboundedSender<Msg>,
    view: VNode<Msg>,
) -> DifferenceCommands {
    let bound = MessageHandledVNode::handle_message(view, sender.clone());
    processor.next(bound).expect("the styles of the view are valid")
}

/// The remote side, as far as the commands describe it.
#[derive(Debug, Clone, PartialEq)]
enum Remote {
    Text(String),
    Element {
        tag: String,
        classes: Vec<String>,
        props: Vec<String>,
        event: HandleEvent,
        children: Vec<Remote>,
    },
}

fn built(
    tag: &str,
    classes: &[String],
    props: &[String],
    event: &HandleEvent,
    children: &[DifferenceCommand],
) -> Remote {
    let mut below = vec![];
    apply(children, &mut below);
    Remote::Element {
        tag: tag.to_string(),
        classes: classes.to_vec(),
        props: props.to_vec(),
        event: event.clone(),
        children: below,
    }
}

fn apply(commands: &[DifferenceCommand], forest: &mut Vec<Remote>) {
    for command in commands {
        match command {
            DifferenceCommand::UpdateElement {
                index,
                class_diff,
                props_diff,
                event_diff,
                children,
            } => match &mut forest[*index] {
                Remote::Element { classes, props, event, children: below, .. } => {
                    for change in class_diff {
                        match change {
                            DifferenceClass::Add(name) => {
                                if !classes.contains(name) {
                                    classes.push(name.clone());
                                }
                            }
                            DifferenceClass::Remove(name) => classes.retain(|c| c != name),
                        }
                    }
                    for change in props_diff {
                        match change {
                            DifferenceProps::Add(name) => {
                                if !props.contains(name) {
                                    props.push(name.clone());
                                }
                            }
                            DifferenceProps::Remove(name) => props.retain(|p| p != name),
                        }
                    }
                    if let DifferenceEvent::Update(new_event) = event_diff {
                        *event = new_event.clone();
                    }
                    apply(children, below);
                }
                Remote::Text(_) => panic!("an element update addresses a text"),
            },
            DifferenceCommand::UpdateText { index, new_text } => {
                forest[*index] = Remote::Text(new_text.clone());
            }
            DifferenceCommand::ReplaceToElement {
                index,
                new_tag,
                classes,
                props,
                event,
                children,
            } => {
                forest[*index] = built(new_tag, classes, props, event, children);
            }
            DifferenceCommand::ReplaceToText { index, text } => {
                forest[*index] = Remote::Text(text.clone());
            }
            DifferenceCommand::InsertElement { index, tag, classes, props, event, children } => {
                forest.insert(*index, built(tag, classes, props, event, children));
            }
            DifferenceCommand::InsertText { index, text } => {
                forest.insert(*index, Remote::Text(text.clone()));
            }
            DifferenceCommand::Remove { index } => {
                forest.remove(*index);
            }
        }
    }
}

fn shown(node: &RenderedVNode) -> Remote {
    match node {
        RenderedVNode::Text { text } => Remote::Text(text.clone()),
        RenderedVNode::Element { tag, class, props, event, children } => Remote::Element {
            tag: tag.clone(),
            classes: class.clone(),
            props: props.clone(),
            event: HandleEvent {
                handle_id: event.id,
                handle_events: event.handle_events.clone(),
                handle_prevent_default_events: event.handle_prevent_default_events.clone(),
            },
            children: children.iter().map(shown).collect(),
        },
    }
}

fn shown_all(forest: &[RenderedVNode]) -> Vec<Remote> {
    forest.iter().map(shown).collect()
}

fn elements(forest: &[RenderedVNode]) -> usize {
    forest
        .iter()
        .map(|node| match node {
            RenderedVNode::Text { .. } => 0,
            RenderedVNode::Element { children, .. } => 1 + elements(children),
        })
        .sum()
}

fn handles(forest: &[RenderedVNode], into: &mut Vec<EventHandleId>) {
    for node in forest {
        if let RenderedVNode::Element { event, children, .. } = node {
            into.push(event.id);
            handles(children, into);
        }
    }
}

fn tags(forest: &[RenderedVNode]) -> Vec<String> {
    forest
        .iter()
        .map(|node| match node {
            RenderedVNode::Text { text } => format!("#{}", text),
            RenderedVNode::Element { tag, .. } => tag.clone(),
        })
        .collect()
}

#[test]
fn counter_first_draw_inserts_the_whole_subtree() {
    let (sender, _receiver) = unbounded_channel();
    let mut processor = Processor::new();
    let commands = draw(&mut processor, &sender, counter(0));

    assert_eq!(commands.main.len(), 1);
    assert!(commands.portals.is_empty());
    match &commands.main[0] {
        DifferenceCommand::InsertElement { index, tag, classes, props, event, children } => {
            assert_eq!(*index, 0);
            assert_eq!(tag, "div");
            assert!(classes.is_empty());
            assert!(props.is_empty());
            assert!(event.handle_events.is_empty());
            assert!(event.handle_prevent_default_events.is_empty());
            assert_eq!(children.len(), 3);
            assert_eq!(
                children[0],
                DifferenceCommand::InsertText { index: 0, text: "0".to_string() }
            );
            match &children[1] {
                DifferenceCommand::InsertElement { index, tag, classes, event, children, .. } => {
                    assert_eq!(*index, 1);
                    assert_eq!(tag, "button");
                    assert_eq!(classes.len(), 1);
                    assert!(classes[0].starts_with("style-"));
                    assert_eq!(event.handle_events, vec![VNodeEventType::Click]);
                    assert!(event.handle_prevent_default_events.is_empty());
                    assert_eq!(
                        children,
                        &vec![DifferenceCommand::InsertText {
                            index: 0,
                            text: "increment".to_string()
                        }]
                    );
                }
                other => panic!("the first button is not inserted: {:?}", other),
            }
            assert!(matches!(&children[2], DifferenceCommand::InsertElement { index: 2, .. }));
        }
        other => panic!("the root is not inserted: {:?}", other),
    }
    assert!(commands
        .styles
        .iter()
        .all(|command| matches!(command, StyleDifferenceCommand::AddStyle { .. })));
    assert_eq!(commands.styles.len(), 1);
}

#[test]
fn counter_increment_updates_the_count_text_only() {
    let (sender, _receiver) = unbounded_channel();
    let mut processor = Processor::new();
    draw(&mut processor, &sender, counter(0));
    let commands = draw(&mut processor, &sender, counter(1));

    assert_eq!(
        commands.main,
        vec![DifferenceCommand::UpdateElement {
            index: 0,
            class_diff: vec![],
            props_diff: vec![],
            event_diff: DifferenceEvent::Unchanged,
            children: vec![DifferenceCommand::UpdateText { index: 0, new_text: "1".to_string() }],
        }]
    );
    assert!(commands.portals.is_empty());
    assert!(commands.styles.is_empty());
}

#[test]
fn redrawing_an_unchanged_tree_is_silent_both_times() {
    let (sender, _receiver) = unbounded_channel();
    let mut processor = Processor::new();
    draw(&mut processor, &sender, counter(7));
    let registered = processor.events.len();
    let rendered = shown_all(&processor.current_vnode.main);

    for _ in 0..2 {
        let commands = draw(&mut processor, &sender, counter(7));
        assert!(commands.main.is_empty());
        assert!(commands.portals.is_empty());
        assert!(commands.styles.is_empty());
        assert_eq!(processor.events.len(), registered);
        assert_eq!(shown_all(&processor.current_vnode.main), rendered);
    }
}

#[test]
fn commands_bring_the_remote_forest_to_the_rendered_one() {
    let (sender, _receiver) = unbounded_channel();
    let mut processor = Processor::new();
    let mut main: Vec<Remote> = vec![];
    let mut portals: Vec<Remote> = vec![];
    let frames = vec![
        counter(0),
        counter(1),
        element("div", vec![text("a"), element("p", vec![text("b")]), text("c")]),
        element("div", vec![element("p", vec![]), text("b")]),
        element(
            "section",
            vec![
                named("input", vec!["wide", "tall"], vec!["disabled"]),
                VNode::Portal { children: vec![text("aside"), button("ok", Msg::Increment)] },
            ],
        ),
        element(
            "section",
            vec![named("input", vec!["tall", "round"], vec!["checked"]), text("tail")],
        ),
        element("section", vec![]),
    ];
    for frame in frames {
        let commands = draw(&mut processor, &sender, frame);
        apply(&commands.main, &mut main);
        apply(&commands.portals, &mut portals);
        assert_eq!(main, shown_all(&processor.current_vnode.main));
        assert_eq!(portals, shown_all(&processor.current_vnode.portals));
    }
    assert_eq!(tags(&processor.current_vnode.main), vec!["section"]);
    assert!(processor.current_vnode.portals.is_empty());
}

#[test]
fn classes_and_props_are_diffed_without_regard_to_order() {
    let (sender, _receiver) = unbounded_channel();
    let mut processor = Processor::new();
    draw(&mut processor, &sender, named("input", vec!["wide", "tall"], vec!["disabled"]));
    let commands =
        draw(&mut processor, &sender, named("input", vec!["tall", "round"], vec!["checked"]));
    assert_eq!(
        commands.main,
        vec![DifferenceCommand::UpdateElement {
            index: 0,
            class_diff: vec![
                DifferenceClass::Add("round".to_string()),
                DifferenceClass::Remove("wide".to_string()),
            ],
            props_diff: vec![
                DifferenceProps::Add("checked".to_string()),
                DifferenceProps::Remove("disabled".to_string()),
            ],
            event_diff: DifferenceEvent::Unchanged,
            children: vec![],
        }]
    );
    match &processor.current_vnode.main[0] {
        RenderedVNode::Element { class, props, .. } => {
            assert_eq!(class, &vec!["tall".to_string(), "round".to_string()]);
            assert_eq!(props, &vec!["checked".to_string()]);
        }
        other => panic!("an element was rendered: {:?}", other),
    }
}

#[test]
fn two_siblings_with_the_same_style_share_one_rule() {
    let (sender, _receiver) = unbounded_channel();
    let mut processor = Processor::new();
    let commands = draw(
        &mut processor,
        &sender,
        element(
            "div",
            vec![styled("p", "color: red;", vec![]), styled("p", "color: red;", vec![])],
        ),
    );
    assert_eq!(commands.styles.len(), 1);
    let class_name = match &commands.styles[0] {
        StyleDifferenceCommand::AddStyle { class_name, value } => {
            assert_eq!(value, &format!(".{}{{color:red}}", class_name));
            class_name.clone()
        }
        other => panic!("a rule is added: {:?}", other),
    };
    assert_eq!(processor.styles.len(), 1);
    match &processor.current_vnode.main[0] {
        RenderedVNode::Element { children, .. } => {
            assert_eq!(children.len(), 2);
            for child in children {
                match child {
                    RenderedVNode::Element { class, .. } => {
                        assert_eq!(class, &vec![class_name.clone()])
                    }
                    other => panic!("an element was rendered: {:?}", other),
                }
            }
        }
        other => panic!("an element was rendered: {:?}", other),
    }
}

#[test]
fn a_style_without_element_is_removed_once() {
    let (sender, _receiver) = unbounded_channel();
    let mut processor = Processor::new();
    let first =
        draw(&mut processor, &sender, element("div", vec![styled("p", "color: red;", vec![])]));
    let id = processor.styles.entries()[0].id;
    assert_eq!(first.styles.len(), 1);
    let added = match &first.styles[0] {
        StyleDifferenceCommand::AddStyle { class_name, .. } => class_name.clone(),
        other => panic!("a rule is added: {:?}", other),
    };
    assert_eq!(added, format!("style-{}", EventHandleId(id).to_text()));

    let second = draw(&mut processor, &sender, element("div", vec![]));
    assert_eq!(
        second.styles,
        vec![StyleDifferenceCommand::RemoveStyle {
            class_name: format!("style-{}", EventHandleId(id).to_text())
        }]
    );
    assert_eq!(processor.styles.len(), 0);

    let third = draw(&mut processor, &sender, element("div", vec![]));
    assert!(third.styles.is_empty());
}

#[test]
fn a_kept_style_keeps_its_class_and_sends_nothing() {
    let (sender, _receiver) = unbounded_channel();
    let mut processor = Processor::new();
    draw(&mut processor, &sender, styled("div", "color: red;", vec![]));
    let id = processor.styles.entries()[0].id;
    let commands = draw(
        &mut processor,
        &sender,
        styled("div", "color: red;", vec![styled("p", "color: blue;", vec![])]),
    );
    assert_eq!(commands.styles.len(), 1);
    assert!(matches!(&commands.styles[0], StyleDifferenceCommand::AddStyle { .. }));
    assert_eq!(processor.styles.len(), 2);
    assert_eq!(processor.styles.entries()[0].id, id);
    assert_eq!(processor.styles.entries()[0].text, "color: red;");
    assert_eq!(processor.styles.entries()[1].text, "color: blue;");
    assert_ne!(processor.styles.entries()[1].id, id);
}

#[test]
fn an_invalid_style_is_refused_and_changes_nothing() {
    let (sender, _receiver) = unbounded_channel();
    let mut processor = Processor::new();
    draw(&mut processor, &sender, styled("div", "color: red;", vec![]));
    let before = processor.styles.entries().clone();
    let registered = processor.events.len();

    let bound = MessageHandledVNode::handle_message(
        styled("div", "color: red; } p { x", vec![text("a")]),
        sender.clone(),
    );
    let error = processor.next(bound).expect_err("the style text closes the rule");
    assert_eq!(error.text, "color: red; } p { x");
    assert_eq!(error.message(), "invalid inline style: color: red; } p { x");
    assert_eq!(processor.styles.entries(), &before);
    assert_eq!(processor.events.len(), registered);
    assert_eq!(tags(&processor.current_vnode.main), vec!["div"]);
}

#[test]
fn nested_portals_end_up_unwrapped_in_one_forest() {
    let (sender, _receiver) = unbounded_channel();
    let mut processor = Processor::new();
    let view = element(
        "div",
        vec![
            text("main"),
            VNode::Portal {
                children: vec![
                    element("a", vec![VNode::Portal { children: vec![text("deep")] }]),
                    VNode::Portal { children: vec![text("inner"), element("b", vec![])] },
                    text("outer"),
                ],
            },
            element("c", vec![VNode::Portal { children: vec![text("late")] }]),
        ],
    );
    let commands = draw(&mut processor, &sender, view);

    assert_eq!(tags(&processor.current_vnode.main), vec!["div"]);
    match &processor.current_vnode.main[0] {
        RenderedVNode::Element { children, .. } => {
            assert_eq!(tags(children), vec!["#main", "c"]);
            match &children[1] {
                RenderedVNode::Element { children, .. } => assert!(children.is_empty()),
                other => panic!("an element was rendered: {:?}", other),
            }
        }
        other => panic!("an element was rendered: {:?}", other),
    }
    assert_eq!(
        tags(&processor.current_vnode.portals),
        vec!["a", "#outer", "#late", "#deep", "#inner", "b"]
    );
    assert_eq!(commands.portals.len(), 6);
    assert!(matches!(&commands.portals[0], DifferenceCommand::InsertElement { index: 0, .. }));
    assert_eq!(
        commands.portals[3],
        DifferenceCommand::InsertText { index: 3, text: "deep".to_string() }
    );
}

#[test]
fn removals_all_go_to_the_first_stale_index() {
    let (sender, _receiver) = unbounded_channel();
    let mut processor = Processor::new();
    draw(&mut processor, &sender, element("ul", vec![text("A"), text("B"), text("C")]));
    let commands = draw(&mut processor, &sender, element("ul", vec![text("A")]));
    assert_eq!(
        commands.main,
        vec![DifferenceCommand::UpdateElement {
            index: 0,
            class_diff: vec![],
            props_diff: vec![],
            event_diff: DifferenceEvent::Unchanged,
            children: vec![
                DifferenceCommand::Remove { index: 1 },
                DifferenceCommand::Remove { index: 1 },
            ],
        }]
    );

    let mut replay = vec!["A", "B", "C"];
    replay.remove(1);
    replay.remove(1);
    assert_eq!(replay, vec!["A"]);
}

#[test]
fn the_registry_holds_one_callback_per_rendered_element() {
    let (sender, _receiver) = unbounded_channel();
    let mut processor = Processor::new();
    let frames = vec![
        counter(0),
        element("div", vec![button("one", Msg::Increment)]),
        element("div", vec![element("p", vec![button("two", Msg::Decrement)]), text("x")]),
        element("span", vec![VNode::Portal { children: vec![button("far", Msg::Increment)] }]),
        element("span", vec![text("only")]),
        text("bare"),
    ];
    let expected = vec![3, 2, 3, 2, 1, 0];
    for (frame, expected) in frames.into_iter().zip(expected) {
        draw(&mut processor, &sender, frame);
        let rendered =
            elements(&processor.current_vnode.main) + elements(&processor.current_vnode.portals);
        assert_eq!(rendered, expected);
        assert_eq!(processor.events.len(), rendered);
        assert_eq!(processor.handles(), rendered);

        let mut held = vec![];
        handles(&processor.current_vnode.main, &mut held);
        handles(&processor.current_vnode.portals, &mut held);
        for (i, id) in held.iter().enumerate() {
            assert!(processor.events.contains(id.0));
            assert!(!held[..i].contains(id));
        }
    }
}

#[test]
fn a_changed_tag_replaces_the_element_under_a_new_handle() {
    let (sender, _receiver) = unbounded_channel();
    let mut processor = Processor::new();
    draw(&mut processor, &sender, element("div", vec![element("p", vec![text("in")])]));
    let mut before = vec![];
    handles(&processor.current_vnode.main, &mut before);

    let commands = draw(&mut processor, &sender, element("div", vec![element("q", vec![])]));
    let mut after = vec![];
    handles(&processor.current_vnode.main, &mut after);
    assert_eq!(after.len(), 2);
    assert_eq!(after[0], before[0]);
    assert_ne!(after[1], before[1]);
    assert!(!before.contains(&after[1]));
    assert!(!processor.events.contains(before[1].0));
    match &commands.main[0] {
        DifferenceCommand::UpdateElement { children, .. } => match &children[0] {
            DifferenceCommand::ReplaceToElement { index, new_tag, event, children, .. } => {
                assert_eq!(*index, 0);
                assert_eq!(new_tag, "q");
                assert_eq!(event.handle_id, after[1]);
                assert!(children.is_empty());
            }
            other => panic!("the child is replaced: {:?}", other),
        },
        other => panic!("the root is updated: {:?}", other),
    }
}

#[test]
fn events_reach_the_handler_of_their_element() {
    let (sender, mut receiver) = unbounded_channel();
    let mut processor = Processor::new();
    draw(&mut processor, &sender, counter(0));
    let mut held = vec![];
    handles(&processor.current_vnode.main, &mut held);
    assert_eq!(held.len(), 3);

    let click = |handle_id| VNodeEvent {
        handle_id,
        kind: VNodeEventKind::Click(MouseEvent::default()),
    };
    assert_eq!(processor.handle_event(click(held[1])), Some(Delivery::Sent));
    assert_eq!(receiver.try_recv().ok(), Some(Msg::Increment));
    assert_eq!(processor.handle_event(click(held[2])), Some(Delivery::Sent));
    assert_eq!(receiver.try_recv().ok(), Some(Msg::Decrement));
    assert_eq!(processor.handle_event(click(held[0])), Some(Delivery::NotSubscribed));
    let blur = VNodeEvent { handle_id: held[1], kind: VNodeEventKind::Blur(Default::default()) };
    assert_eq!(processor.handle_event(blur), Some(Delivery::NotSubscribed));
    assert!(receiver.try_recv().is_err());
}

#[test]
fn an_event_for_an_unknown_handle_is_dropped() {
    let (sender, mut receiver) = unbounded_channel();
    let mut processor = Processor::new();
    draw(&mut processor, &sender, counter(0));
    let mut held = vec![];
    handles(&processor.current_vnode.main, &mut held);
    draw(&mut processor, &sender, text("gone"));

    let stale = VNodeEvent {
        handle_id: held[1],
        kind: VNodeEventKind::Click(MouseEvent::default()),
    };
    assert_eq!(processor.handle_event(stale), None);
    assert!(receiver.try_recv().is_err());
    assert_eq!(processor.events.len(), 0);
}

#[test]
fn a_closed_channel_is_reported() {
    let (sender, receiver) = unbounded_channel();
    let mut processor = Processor::new();
    draw(&mut processor, &sender, counter(0));
    let mut held = vec![];
    handles(&processor.current_vnode.main, &mut held);
    drop(receiver);

    let click = VNodeEvent {
        handle_id: held[1],
        kind: VNodeEventKind::Click(MouseEvent::default()),
    };
    assert_eq!(processor.handle_event(click), Some(Delivery::ChannelClosed(Msg::Increment)));
}

#[test]
fn an_unchanged_element_gets_the_callback_of_the_new_frame() {
    let (sender, mut receiver) = unbounded_channel();
    let mut processor = Processor::new();
    draw(&mut processor, &sender, button("go", Msg::Increment));
    let mut held = vec![];
    handles(&processor.current_vnode.main, &mut held);

    let commands = draw(&mut processor, &sender, button("go", Msg::Decrement));
    assert!(commands.main.is_empty());
    let click = VNodeEvent {
        handle_id: held[0],
        kind: VNodeEventKind::Click(MouseEvent::default()),
    };
    assert_eq!(processor.handle_event(click), Some(Delivery::Sent));
    assert_eq!(receiver.try_recv().ok(), Some(Msg::Decrement));
}

#[test]
fn a_subscription_is_renewed_only_where_both_lists_change() {
    let (sender, _receiver) = unbounded_channel();
    let mut processor = Processor::new();
    let plain = |message: Msg| VNode::Element {
        tag: "a".to_string(),
        class: vec![],
        props: vec![],
        event: VNodeEventHandlers {
            click: VNodeEventHandler::handle(move |_| message.clone()),
            ..Default::default()
        },
        children: vec![],
        style: None,
    };
    let both = VNode::Element {
        tag: "a".to_string(),
        class: vec![],
        props: vec![],
        event: VNodeEventHandlers {
            blur: VNodeEventHandler::handle(|_| Msg::Increment),
            submit: VNodeEventHandler::handle_prevent_default(|_| Msg::Decrement),
            ..Default::default()
        },
        children: vec![],
        style: None,
    };
    let one_sided = VNode::Element {
        tag: "a".to_string(),
        class: vec![],
        props: vec![],
        event: VNodeEventHandlers {
            blur: VNodeEventHandler::handle(|_| Msg::Increment),
            focus: VNodeEventHandler::handle(|_| Msg::Increment),
            submit: VNodeEventHandler::handle_prevent_default(|_| Msg::Decrement),
            ..Default::default()
        },
        children: vec![],
        style: None,
    };
    draw(&mut processor, &sender, plain(Msg::Increment));
    let mut held = vec![];
    handles(&processor.current_vnode.main, &mut held);

    let commands = draw(&mut processor, &sender, both);
    assert_eq!(
        commands.main,
        vec![DifferenceCommand::UpdateElement {
            index: 0,
            class_diff: vec![],
            props_diff: vec![],
            event_diff: DifferenceEvent::Update(HandleEvent {
                handle_id: held[0],
                handle_events: vec![VNodeEventType::Blur],
                handle_prevent_default_events: vec![VNodeEventType::Submit],
            }),
            children: vec![],
        }]
    );

    let commands = draw(&mut processor, &sender, one_sided);
    assert_eq!(
        commands.main,
        vec![DifferenceCommand::UpdateElement {
            index: 0,
            class_diff: vec![],
            props_diff: vec![],
            event_diff: DifferenceEvent::Unchanged,
            children: vec![],
        }]
    );
    match &processor.current_vnode.main[0] {
        RenderedVNode::Element { event, .. } => {
            assert_eq!(event.id, held[0]);
            assert_eq!(event.handle_events, vec![VNodeEventType::Blur, VNodeEventType::Focus]);
            assert_eq!(event.handle_prevent_default_events, vec![VNodeEventType::Submit]);
        }
        other => panic!("an element was rendered: {:?}", other),
    }
}

#[test]
fn a_redraw_after_a_one_sided_subscription_change_is_silent() {
    let (sender, _receiver) = unbounded_channel();
    let mut processor = Processor::new();
    let frame = |focus: bool| VNode::Element {
        tag: "a".to_string(),
        class: vec![],
        props: vec![],
        event: VNodeEventHandlers {
            blur: VNodeEventHandler::handle(|_| Msg::Increment),
            focus: if focus {
                VNodeEventHandler::handle(|_| Msg::Increment)
            } else {
                VNodeEventHandler::Unset
            },
            ..Default::default()
        },
        children: vec![],
        style: None,
    };
    draw(&mut processor, &sender, frame(false));
    let registered = processor.events.len();
    let changed = draw(&mut processor, &sender, frame(true));
    assert_eq!(changed.main.len(), 1);
    for _ in 0..2 {
        let again = draw(&mut processor, &sender, frame(true));
        assert!(again.main.is_empty());
        assert!(again.portals.is_empty());
        assert_eq!(processor.events.len(), registered);
    }
}

#[test]
fn no_handle_is_handed_out_twice() {
    let (sender, _receiver) = unbounded_channel();
    let mut processor = Processor::new();
    let mut seen: Vec<EventHandleId> = vec![];
    for round in 0..6 {
        let tag = if round % 2 == 0 { "p" } else { "q" };
        draw(
            &mut processor,
            &sender,
            element("div", vec![element(tag, vec![element("b", vec![])]), element(tag, vec![])]),
        );
        let mut held = vec![];
        handles(&processor.current_vnode.main, &mut held);
        assert_eq!(held.len(), 4);
        for id in &held[1..] {
            assert!(!seen.contains(id));
        }
        seen.extend_from_slice(&held[1..]);
        assert_eq!(processor.handles(), 4);
    }
}

#[test]
fn kinds_of_node_replace_each_other() {
    let (sender, _receiver) = unbounded_channel();
    let mut processor = Processor::new();
    draw(&mut processor, &sender, element("div", vec![text("t"), element("p", vec![])]));
    let commands =
        draw(&mut processor, &sender, element("div", vec![element("p", vec![]), text("t")]));
    match &commands.main[0] {
        DifferenceCommand::UpdateElement { children, .. } => {
            assert_eq!(children.len(), 2);
            assert!(matches!(
                &children[0],
                DifferenceCommand::ReplaceToElement { index: 0, .. }
            ));
            assert_eq!(
                children[1],
                DifferenceCommand::ReplaceToText { index: 1, text: "t".to_string() }
            );
        }
        other => panic!("the root is updated: {:?}", other),
    }
    assert_eq!(processor.events.len(), 2);
}

#[test]
fn a_redraw_after_a_reordering_update_is_silent() {
    let (sender, _receiver) = unbounded_channel();
    let mut processor = Processor::new();
    draw(&mut processor, &sender, named("input", vec!["a", "b"], vec!["x", "y"]));
    let commands = draw(&mut processor, &sender, named("input", vec!["b", "a"], vec!["y", "x"]));
    assert_eq!(
        commands.main,
        vec![DifferenceCommand::UpdateElement {
            index: 0,
            class_diff: vec![],
            props_diff: vec![],
            event_diff: DifferenceEvent::Unchanged,
            children: vec![],
        }]
    );
    match &processor.current_vnode.main[0] {
        RenderedVNode::Element { class, props, .. } => {
            assert_eq!(class, &vec!["b".to_string(), "a".to_string()]);
            assert_eq!(props, &vec!["y".to_string(), "x".to_string()]);
        }
        other => panic!("an element was rendered: {:?}", other),
    }
    for _ in 0..2 {
        let again =
            draw(&mut processor, &sender, named("input", vec!["b", "a"], vec!["y", "x"]));
        assert!(again.main.is_empty());
    }
}

#[test]
fn callbacks_below_an_unchanged_element_are_renewed() {
    let (sender, mut receiver) = unbounded_channel();
    let mut processor = Processor::new();
    let frame = |message: Msg| element("div", vec![element("p", vec![button("go", message)])]);
    draw(&mut processor, &sender, frame(Msg::Increment));
    let mut held = vec![];
    handles(&processor.current_vnode.main, &mut held);
    assert_eq!(held.len(), 3);

    let commands = draw(&mut processor, &sender, frame(Msg::Decrement));
    assert!(commands.main.is_empty());
    let mut after = vec![];
    handles(&processor.current_vnode.main, &mut after);
    assert_eq!(after, held);
    let click = VNodeEvent {
        handle_id: held[2],
        kind: VNodeEventKind::Click(MouseEvent::default()),
    };
    assert_eq!(processor.handle_event(click), Some(Delivery::Sent));
    assert_eq!(receiver.try_recv().ok(), Some(Msg::Decrement));
}

#[test]
fn an_updated_element_gets_the_callback_of_the_new_frame() {
    let (sender, mut receiver) = unbounded_channel();
    let mut processor = Processor::new();
    let frame = |label: &str, message: Msg| VNode::Element {
        tag: "button".to_string(),
        class: vec![],
        props: vec![],
        event: VNodeEventHandlers {
            click: VNodeEventHandler::handle(move |_| message.clone()),
            ..Default::default()
        },
        children: vec![text(label)],
        style: None,
    };
    draw(&mut processor, &sender, frame("up", Msg::Increment));
    let mut held = vec![];
    handles(&processor.current_vnode.main, &mut held);
    let commands = draw(&mut processor, &sender, frame("down", Msg::Decrement));
    assert_eq!(commands.main.len(), 1);
    let click = VNodeEvent {
        handle_id: held[0],
        kind: VNodeEventKind::Click(MouseEvent::default()),
    };
    assert_eq!(processor.handle_event(click), Some(Delivery::Sent));
    assert_eq!(receiver.try_recv().ok(), Some(Msg::Decrement));
}
