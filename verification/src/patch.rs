//! The patch model and the reconciliation engine: applying a patch tree to
//! the live document model.
//!
//! A patch is always evaluated against exactly one live node, except that
//! inside an update, a child patch whose index lies beyond the live
//! children snapshot is evaluated against the parent element itself, where
//! an addition appends; any other variant in that fallback position
//! performs no mutation.  An update applies all child patches strictly
//! before any attribute patch, each child patch targeting the position of
//! the children snapshot taken when the update began.

use crate::document::{
    lemma_nodes_view, node_view, nodes_view, set_attr_s, Context, ElemV, LiveElement, LiveNode,
    NodeV,
};
use crate::html::{Attribute, Html};
use crate::render::{render_attr_s, render_attribute, render_node, render_s};
use std::sync::Arc;
use vstd::prelude::*;

verus! {

/// A single attribute-level change.  Both variants carry the full
/// attribute value, so a removal can decide the correct unset operation
/// from the variant.
pub enum AttrPatch<Msg> {
    Add(Attribute<Msg>),
    Remove(Attribute<Msg>),
}

/// The transform from the previously rendered structure to the newly
/// desired one, at one tree position.
pub enum Patch<Msg> {
    /// The position was empty: materialize the node and append it to the
    /// supplied element.
    Add(Html<Msg>),
    /// The position holds an incompatible node: materialize the new node
    /// and substitute it.
    Replace(Html<Msg>),
    /// The position holds a compatible element: recurse into its children
    /// by position, then apply attribute changes to the element itself.
    Update(Vec<Patch<Msg>>, Vec<AttrPatch<Msg>>),
    /// Detach the node at this position.
    Remove,
    /// No change.
    Nothing,
}

/// View of an application result: the node's replacement, or nothing when
/// the node was detached.
pub open spec fn opt_node_view<Msg>(r: Option<LiveNode<Msg>>) -> Option<NodeV<Msg>> {
    match r {
        Some(n) => Some(node_view(n)),
        None => None,
    }
}

/// Effect of one attribute patch on a live element: the updated element
/// and the messages dispatched, in order.
///
/// An addition materializes the attribute.  A removal undoes the variant:
/// a click removal clears the handler; a custom removal sets the named
/// attribute to the empty string rather than deleting it; a mount removal
/// does nothing; an unmount removal dispatches the handler's message; a
/// marker removal does nothing.
pub open spec fn attr_patch_s<Msg>(e: ElemV<Msg>, p: AttrPatch<Msg>) -> (ElemV<Msg>, Seq<
    Arc<Msg>,
>) {
    match p {
        AttrPatch::Add(a) => render_attr_s(e, a),
        AttrPatch::Remove(r) => match r {
            Attribute::OnClick(h) => (
                ElemV { tag: e.tag, attrs: e.attrs, onclick: None, children: e.children },
                Seq::empty(),
            ),
            Attribute::Custom(n, v) => (
                ElemV {
                    tag: e.tag,
                    attrs: set_attr_s(e.attrs, n@, Seq::empty()),
                    onclick: e.onclick,
                    children: e.children,
                },
                Seq::empty(),
            ),
            Attribute::OnMount(h) => (e, Seq::empty()),
            Attribute::OnUnmount(h) => (e, seq![h]),
            Attribute::Reserved => (e, Seq::empty()),
        },
    }
}

/// Effect of the attribute patches from index `i` on, in order.
pub open spec fn attr_patches_from<Msg>(
    e: ElemV<Msg>,
    ps: Seq<AttrPatch<Msg>>,
    i: int,
) -> (ElemV<Msg>, Seq<Arc<Msg>>)
    decreases ps.len() - i,
{
    if i < 0 || i >= ps.len() {
        (e, Seq::empty())
    } else {
        let (e1, m1) = attr_patch_s(e, ps[i]);
        let (e2, m2) = attr_patches_from(e1, ps, i + 1);
        (e2, m1 + m2)
    }
}

/// Effect of one patch on one live node: the node's replacement (nothing
/// when it was detached) and the messages dispatched, in order.
pub open spec fn apply_patch_s<Msg>(p: Patch<Msg>, n: NodeV<Msg>) -> (Option<NodeV<Msg>>, Seq<
    Arc<Msg>,
>)
    decreases p,
{
    match p {
        Patch::Nothing => (Some(n), Seq::empty()),
        Patch::Remove => (None, Seq::empty()),
        Patch::Replace(h) => {
            let (nv, ms) = render_s(h);
            (Some(nv), ms)
        },
        Patch::Add(h) => match n {
            NodeV::Element(e) => {
                let (nv, ms) = render_s(h);
                (
                    Some(
                        NodeV::Element(
                            ElemV {
                                tag: e.tag,
                                attrs: e.attrs,
                                onclick: e.onclick,
                                children: e.children.push(nv),
                            },
                        ),
                    ),
                    ms,
                )
            },
            NodeV::Text(t) => (Some(NodeV::Text(t)), Seq::empty()),
        },
        Patch::Update(cs, aps) => match n {
            NodeV::Element(e) => {
                let (kids, m1) = apply_children_s(e.children, cs@);
                let e1 = ElemV { tag: e.tag, attrs: e.attrs, onclick: e.onclick, children: kids };
                let (e2, m2) = attr_patches_from(e1, aps@, 0);
                (Some(NodeV::Element(e2)), m1 + m2)
            },
            NodeV::Text(t) => (Some(NodeV::Text(t)), Seq::empty()),
        },
    }
}

/// Effect of a child-patch list on a children snapshot: patch `i` targets
/// snapshot child `i` while one exists; beyond the snapshot, an addition
/// appends its materialized node and any other variant does nothing.
/// Snapshot children beyond the patch list stay, in order.
pub open spec fn apply_children_s<Msg>(snap: Seq<NodeV<Msg>>, cs: Seq<Patch<Msg>>) -> (Seq<
    NodeV<Msg>,
>, Seq<Arc<Msg>>)
    decreases cs,
{
    if cs.len() == 0 {
        (snap, Seq::empty())
    } else if snap.len() > 0 {
        let (r, m1) = apply_patch_s(cs[0], snap[0]);
        let (rest, m2) = apply_children_s(
            snap.subrange(1, snap.len() as int),
            cs.subrange(1, cs.len() as int),
        );
        (
            match r {
                Some(nv) => seq![nv] + rest,
                None => rest,
            },
            m1 + m2,
        )
    } else {
        match cs[0] {
            Patch::Add(h) => {
                let (nv, m1) = render_s(h);
                let (rest, m2) = apply_children_s(snap, cs.subrange(1, cs.len() as int));
                (seq![nv] + rest, m1 + m2)
            },
            _ => apply_children_s(snap, cs.subrange(1, cs.len() as int)),
        }
    }
}

/// Applies the attribute patches from index `i` on to a live element.
pub fn apply_attributes<Msg>(
    el: &mut LiveElement<Msg>,
    patches: &Vec<AttrPatch<Msg>>,
    i: usize,
    ctx: &mut Context<Msg>,
)
    requires
        i <= patches.len(),
    ensures
        ({
            let (e2, ms) = attr_patches_from(old(el)@, patches@, i as int);
            final(el)@ == e2 && final(ctx).sent@ == old(ctx).sent@ + ms
        }),
    decreases patches@.len() - i,
{
    if i == patches.len() {
        proof {
            assert(old(ctx).sent@ + Seq::<Arc<Msg>>::empty() =~= old(ctx).sent@);
        }
    } else {
        let ghost (e1, m1) = attr_patch_s(old(el)@, patches@[i as int]);
        let ghost (e2, m2) = attr_patches_from(e1, patches@, i as int + 1);
        match &patches[i] {
            AttrPatch::Add(a) => {
                render_attribute(el, a, ctx);
            },
            AttrPatch::Remove(r) => {
                match r {
                    Attribute::OnClick(h) => {
                        el.onclick = None;
                    },
                    Attribute::Custom(n, v) => {
                        let cleared = String::new();
                        el.set_attribute(n, &cleared);
                    },
                    Attribute::OnMount(h) => {},
                    Attribute::OnUnmount(h) => {
                        ctx.dispatch(h);
                        proof {
                            assert(old(ctx).sent@ + seq![*h] =~= old(ctx).sent@.push(*h));
                        }
                    },
                    Attribute::Reserved => {},
                }
                proof {
                    assert(old(ctx).sent@ + Seq::<Arc<Msg>>::empty() =~= old(ctx).sent@);
                }
            },
        }
        apply_attributes(el, patches, i + 1, ctx);
        proof {
            assert((old(ctx).sent@ + m1) + m2 =~= old(ctx).sent@ + (m1 + m2));
        }
    }
}

/// Applies the child patches from index `i` on: `children` holds the part
/// of the snapshot those patches face, and the result is the part of the
/// new child list they produce.
pub fn apply_children<Msg>(
    children: Vec<LiveNode<Msg>>,
    patches: &Vec<Patch<Msg>>,
    i: usize,
    ctx: &mut Context<Msg>,
) -> (out: Vec<LiveNode<Msg>>)
    requires
        i <= patches.len(),
    ensures
        ({
            let (ns, ms) = apply_children_s(
                nodes_view(children@),
                patches@.subrange(i as int, patches@.len() as int),
            );
            nodes_view(out@) == ns && final(ctx).sent@ == old(ctx).sent@ + ms
        }),
    decreases patches@, patches@.len() - i,
{
    let ghost snap = nodes_view(children@);
    let ghost cs = patches@.subrange(i as int, patches@.len() as int);
    proof {
        lemma_nodes_view(children@);
    }
    if i == patches.len() {
        proof {
            assert(cs =~= Seq::<Patch<Msg>>::empty());
            assert(old(ctx).sent@ + Seq::<Arc<Msg>>::empty() =~= old(ctx).sent@);
        }
        children
    } else {
        proof {
            assert(cs[0] == patches@[i as int]);
            assert(cs.subrange(1, cs.len() as int) =~= patches@.subrange(
                i as int + 1,
                patches@.len() as int,
            ));
        }
        if children.len() > 0 {
            let mut rest_children = children;
            let first = rest_children.remove(0);
            proof {
                assert(rest_children@ =~= children@.subrange(1, children@.len() as int));
                lemma_nodes_view(rest_children@);
                assert(nodes_view(rest_children@) =~= snap.subrange(1, snap.len() as int));
            }
            let ghost (r, m1) = apply_patch_s(patches@[i as int], snap[0]);
            let ghost (rest_v, m2) = apply_children_s(
                nodes_view(rest_children@),
                cs.subrange(1, cs.len() as int),
            );
            let applied = patches[i].apply(first, ctx);
            let mut out = apply_children(rest_children, patches, i + 1, ctx);
            proof {
                assert((old(ctx).sent@ + m1) + m2 =~= old(ctx).sent@ + (m1 + m2));
            }
            match applied {
                Some(n) => {
                    let ghost tail = out@;
                    out.insert(0, n);
                    proof {
                        assert(out@ =~= seq![n] + tail);
                        lemma_nodes_view(out@);
                        lemma_nodes_view(tail);
                        assert(nodes_view(out@) =~= seq![node_view(n)] + nodes_view(tail));
                    }
                },
                None => {},
            }
            out
        } else {
            proof {
                assert(snap =~= Seq::<NodeV<Msg>>::empty());
            }
            match &patches[i] {
                Patch::Add(h) => {
                    let ghost (nv, m1) = render_s(*h);
                    let n = render_node(h, ctx);
                    let ghost (rest_v, m2) = apply_children_s(snap, cs.subrange(1, cs.len() as int));
                    let mut out = apply_children(children, patches, i + 1, ctx);
                    let ghost tail = out@;
                    out.insert(0, n);
                    proof {
                        assert(out@ =~= seq![n] + tail);
                        lemma_nodes_view(out@);
                        lemma_nodes_view(tail);
                        assert(nodes_view(out@) =~= seq![node_view(n)] + nodes_view(tail));
                        assert((old(ctx).sent@ + m1) + m2 =~= old(ctx).sent@ + (m1 + m2));
                    }
                    out
                },
                _ => {
                    let out = apply_children(children, patches, i + 1, ctx);
                    out
                },
            }
        }
    }
}

impl<Msg> Patch<Msg> {
    /// Applies this patch to one live node, returning the node's
    /// replacement, or nothing when the patch detached it.  The messages
    /// dispatched while applying are appended to the context's log in
    /// dispatch order.
    pub fn apply(&self, node: LiveNode<Msg>, ctx: &mut Context<Msg>) -> (res: Option<
        LiveNode<Msg>,
    >)
        ensures
            ({
                let (nv, ms) = apply_patch_s(*self, node@);
                opt_node_view(res) == nv && final(ctx).sent@ == old(ctx).sent@ + ms
            }),
        decreases self, 0int,
    {
        proof {
            assert(old(ctx).sent@ + Seq::<Arc<Msg>>::empty() =~= old(ctx).sent@);
        }
        match self {
            Patch::Nothing => Some(node),
            Patch::Remove => None,
            Patch::Replace(h) => Some(render_node(h, ctx)),
            Patch::Add(h) => match node {
                LiveNode::Element(e) => {
                    let n = render_node(h, ctx);
                    let mut e = e;
                    let ghost kids = e.children@;
                    e.children.push(n);
                    proof {
                        crate::document::lemma_nodes_view_push(kids, n);
                    }
                    Some(LiveNode::Element(e))
                },
                LiveNode::Text(t) => Some(LiveNode::Text(t)),
            },
            Patch::Update(cs, aps) => match node {
                LiveNode::Element(e) => {
                    let LiveElement { tag, attrs, onclick, children } = e;
                    let ghost (kids_v, m1) = apply_children_s(nodes_view(children@), cs@);
                    proof {
                        assert(cs@.subrange(0, cs@.len() as int) =~= cs@);
                    }
                    let new_children = apply_children(children, cs, 0, ctx);
                    let mut el = LiveElement { tag, attrs, onclick, children: new_children };
                    let ghost (e2, m2) = attr_patches_from(el@, aps@, 0);
                    apply_attributes(&mut el, aps, 0, ctx);
                    proof {
                        assert((old(ctx).sent@ + m1) + m2 =~= old(ctx).sent@ + (m1 + m2));
                    }
                    Some(LiveNode::Element(el))
                },
                LiveNode::Text(t) => Some(LiveNode::Text(t)),
            },
        }
    }
}

} // verus!
