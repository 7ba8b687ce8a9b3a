use roko_core::document::{Context, LiveElement, LiveNode};
use roko_core::html::{element, text, Attribute, Html};
use roko_core::patch::{AttrPatch, Patch};
use roko_core::render::render_node;
use std::sync::Arc;

#[derive(Debug, PartialEq, Eq, Clone, Copy)]
enum Msg {
    Clicked,
    Mounted,
    Unmounted,
}

fn empty_div() -> LiveNode<Msg> {
    LiveNode::Element(LiveElement {
        tag: "div".to_string(),
        attrs: vec![],
        onclick: None,
        children: vec![],
    })
}

fn div_with_children(children: Vec<LiveNode<Msg>>) -> LiveNode<Msg> {
    LiveNode::Element(LiveElement {
        tag: "div".to_string(),
        attrs: vec![],
        onclick: None,
        children,
    })
}

fn as_element(n: LiveNode<Msg>) -> LiveElement<Msg> {
    match n {
        LiveNode::Element(e) => e,
        LiveNode::Text(t) => panic!("expected an element, found text {:?}", t),
    }
}

fn as_text(n: &LiveNode<Msg>) -> &String {
    match n {
        LiveNode::Text(t) => t,
        LiveNode::Element(_) => panic!("expected text, found an element"),
    }
}

#[test]
fn nothing_leaves_node_unchanged() {
    let node = LiveNode::Element(LiveElement {
        tag: "div".to_string(),
        attrs: vec![("data-x".to_string(), "1".to_string())],
        onclick: None,
        children: vec![LiveNode::Text("hello".to_string())],
    });
    let mut ctx: Context<Msg> = Context::new();
    let res = Patch::Nothing.apply(node, &mut ctx);
    let el = as_element(res.expect("nothing must keep the node"));
    assert_eq!(el.tag, "div");
    assert_eq!(el.attrs, vec![("data-x".to_string(), "1".to_string())]);
    assert_eq!(el.children.len(), 1);
    assert_eq!(as_text(&el.children[0]), "hello");
    assert_eq!(ctx.sent.len(), 0);
}

#[test]
fn remove_detaches_exactly_the_target() {
    let node = div_with_children(vec![
        LiveNode::Text("a".to_string()),
        LiveNode::Text("b".to_string()),
        LiveNode::Text("c".to_string()),
    ]);
    let patch = Patch::Update(vec![Patch::Nothing, Patch::Remove, Patch::Nothing], vec![]);
    let mut ctx: Context<Msg> = Context::new();
    let el = as_element(patch.apply(node, &mut ctx).expect("update keeps the node"));
    assert_eq!(el.children.len(), 2);
    assert_eq!(as_text(&el.children[0]), "a");
    assert_eq!(as_text(&el.children[1]), "c");
    assert_eq!(ctx.sent.len(), 0);
}

#[test]
fn remove_at_top_level_detaches_the_node() {
    let mut ctx: Context<Msg> = Context::new();
    let res = Patch::Remove.apply(empty_div(), &mut ctx);
    assert!(res.is_none());
    assert_eq!(ctx.sent.len(), 0);
}

#[test]
fn children_are_patched_before_attributes() {
    // The child patch materializes a mount binding; the attribute patch
    // removes an unmount binding.  Children first means the mount message
    // precedes the unmount message.
    let node = empty_div();
    let child = Html::Element {
        tag: "span".to_string(),
        key: None,
        attrs: vec![Attribute::OnMount(Arc::new(Msg::Mounted))],
        children: vec![],
    };
    let patch = Patch::Update(
        vec![Patch::Add(child)],
        vec![AttrPatch::Remove(Attribute::OnUnmount(Arc::new(Msg::Unmounted)))],
    );
    let mut ctx: Context<Msg> = Context::new();
    let el = as_element(patch.apply(node, &mut ctx).expect("update keeps the node"));
    assert_eq!(el.children.len(), 1);
    assert_eq!(ctx.sent.len(), 2);
    assert_eq!(*ctx.sent[0], Msg::Mounted);
    assert_eq!(*ctx.sent[1], Msg::Unmounted);
}

#[test]
fn child_patches_beyond_count_append_to_parent() {
    let node = div_with_children(vec![LiveNode::Text("a".to_string())]);
    let patch = Patch::Update(
        vec![
            Patch::Nothing,
            Patch::Add(text("b".to_string())),
            Patch::Add(text("c".to_string())),
        ],
        vec![],
    );
    let mut ctx: Context<Msg> = Context::new();
    let el = as_element(patch.apply(node, &mut ctx).expect("update keeps the node"));
    assert_eq!(el.children.len(), 3);
    assert_eq!(as_text(&el.children[0]), "a");
    assert_eq!(as_text(&el.children[1]), "b");
    assert_eq!(as_text(&el.children[2]), "c");
}

#[test]
fn custom_attribute_round_trip_clears_but_keeps_it() {
    let node = empty_div();
    let patch = Patch::Update(
        vec![],
        vec![
            AttrPatch::Add(Attribute::Custom("data-x".to_string(), "1".to_string())),
            AttrPatch::Remove(Attribute::Custom("data-x".to_string(), "1".to_string())),
        ],
    );
    let mut ctx: Context<Msg> = Context::new();
    let el = as_element(patch.apply(node, &mut ctx).expect("update keeps the node"));
    // Cleared, not deleted: the attribute is present with the empty value.
    assert_eq!(el.get_attribute(&"data-x".to_string()), Some("".to_string()));
    assert_eq!(ctx.sent.len(), 0);
}

#[test]
fn mount_fires_once_eagerly_at_materialization() {
    let html = Html::Element {
        tag: "div".to_string(),
        key: None,
        attrs: vec![Attribute::OnMount(Arc::new(Msg::Mounted))],
        children: vec![],
    };
    let mut ctx: Context<Msg> = Context::new();
    let node = render_node(&html, &mut ctx);
    assert_eq!(ctx.sent.len(), 1);
    assert_eq!(*ctx.sent[0], Msg::Mounted);
    let el = as_element(node);
    assert_eq!(el.tag, "div");
}

#[test]
fn unmount_fires_once_and_only_on_removal() {
    // Materializing an unmount binding dispatches nothing.
    let html = Html::Element {
        tag: "div".to_string(),
        key: None,
        attrs: vec![Attribute::OnUnmount(Arc::new(Msg::Unmounted))],
        children: vec![],
    };
    let mut ctx: Context<Msg> = Context::new();
    let node = render_node(&html, &mut ctx);
    assert_eq!(ctx.sent.len(), 0);
    // Removing the binding dispatches its message exactly once.
    let patch = Patch::Update(
        vec![],
        vec![AttrPatch::Remove(Attribute::OnUnmount(Arc::new(Msg::Unmounted)))],
    );
    let _ = patch.apply(node, &mut ctx).expect("update keeps the node");
    assert_eq!(ctx.sent.len(), 1);
    assert_eq!(*ctx.sent[0], Msg::Unmounted);
}

#[test]
fn replace_substitutes_the_node() {
    let node = LiveNode::Text("old".to_string());
    let patch = Patch::Replace(element(
        "span".to_string(),
        None,
        vec![],
        vec![text("new".to_string())],
    ));
    let mut ctx: Context<Msg> = Context::new();
    let el = as_element(patch.apply(node, &mut ctx).expect("replace keeps a node"));
    assert_eq!(el.tag, "span");
    assert_eq!(el.children.len(), 1);
    assert_eq!(as_text(&el.children[0]), "new");
}

#[test]
fn add_appends_as_last_child_of_the_supplied_element() {
    let node = div_with_children(vec![LiveNode::Text("a".to_string())]);
    let patch = Patch::Add(Html::Text("b".to_string()));
    let mut ctx: Context<Msg> = Context::new();
    let el = as_element(patch.apply(node, &mut ctx).expect("add keeps the node"));
    assert_eq!(el.children.len(), 2);
    assert_eq!(as_text(&el.children[1]), "b");
}

#[test]
fn click_handler_is_set_and_cleared() {
    let node = empty_div();
    let add = Patch::Update(
        vec![],
        vec![AttrPatch::Add(Attribute::OnClick(Arc::new(Msg::Clicked)))],
    );
    let mut ctx: Context<Msg> = Context::new();
    let node = add.apply(node, &mut ctx).expect("update keeps the node");
    {
        let el = match &node {
            LiveNode::Element(e) => e,
            _ => panic!("expected element"),
        };
        match &el.onclick {
            Some(h) => assert_eq!(**h, Msg::Clicked),
            None => panic!("click handler must be set"),
        }
    }
    let clear = Patch::Update(
        vec![],
        vec![AttrPatch::Remove(Attribute::OnClick(Arc::new(Msg::Clicked)))],
    );
    let el = as_element(clear.apply(node, &mut ctx).expect("update keeps the node"));
    assert!(el.onclick.is_none());
    assert_eq!(ctx.sent.len(), 0);
}

#[test]
fn set_attribute_overwrites_in_place() {
    let mut el = LiveElement::<Msg> {
        tag: "div".to_string(),
        attrs: vec![],
        onclick: None,
        children: vec![],
    };
    el.set_attribute(&"a".to_string(), &"1".to_string());
    el.set_attribute(&"b".to_string(), &"2".to_string());
    el.set_attribute(&"a".to_string(), &"3".to_string());
    assert_eq!(
        el.attrs,
        vec![
            ("a".to_string(), "3".to_string()),
            ("b".to_string(), "2".to_string()),
        ]
    );
    assert_eq!(el.get_attribute(&"a".to_string()), Some("3".to_string()));
    assert_eq!(el.get_attribute(&"c".to_string()), None);
}
