//! Materializing virtual nodes into the live document model.
//!
//! Rendering an element applies its attributes in order and then renders
//! its children in order.  Mount handlers dispatch their message eagerly,
//! at attach time; unmount handlers dispatch nothing here.

use crate::document::{attr_pairs_view, set_attr_s, Context, ElemV, LiveElement, LiveNode, NodeV};
use crate::html::{share_handler, Attribute, Html};
use std::sync::Arc;
use vstd::prelude::*;

verus! {

/// Effect of materializing one attribute onto a live element: the updated
/// element and the messages dispatched, in order.
pub open spec fn render_attr_s<Msg>(e: ElemV<Msg>, a: Attribute<Msg>) -> (ElemV<Msg>, Seq<
    Arc<Msg>,
>) {
    match a {
        Attribute::OnClick(h) => (
            ElemV { tag: e.tag, attrs: e.attrs, onclick: Some(h), children: e.children },
            Seq::empty(),
        ),
        Attribute::OnMount(h) => (e, seq![h]),
        Attribute::OnUnmount(h) => (e, Seq::empty()),
        Attribute::Custom(n, v) => (
            ElemV {
                tag: e.tag,
                attrs: set_attr_s(e.attrs, n@, v@),
                onclick: e.onclick,
                children: e.children,
            },
            Seq::empty(),
        ),
        Attribute::Reserved => (e, Seq::empty()),
    }
}

/// Effect of materializing the attributes from index `i` on, in order.
pub open spec fn render_attrs_from<Msg>(
    e: ElemV<Msg>,
    attrs: Seq<Attribute<Msg>>,
    i: int,
) -> (ElemV<Msg>, Seq<Arc<Msg>>)
    decreases attrs.len() - i,
{
    if i < 0 || i >= attrs.len() {
        (e, Seq::empty())
    } else {
        let (e1, m1) = render_attr_s(e, attrs[i]);
        let (e2, m2) = render_attrs_from(e1, attrs, i + 1);
        (e2, m1 + m2)
    }
}

/// Value of a freshly materialized node, together with the messages its
/// mount handlers dispatched, in order: attributes first, then children.
pub open spec fn render_s<Msg>(h: Html<Msg>) -> (NodeV<Msg>, Seq<Arc<Msg>>)
    decreases h, 0int,
{
    match h {
        Html::Text(s) => (NodeV::Text(s@), Seq::empty()),
        Html::Element { tag, key, attrs, children } => {
            let e0 = ElemV {
                tag: tag@,
                attrs: Seq::empty(),
                onclick: None,
                children: Seq::empty(),
            };
            let (e1, m1) = render_attrs_from(e0, attrs@, 0);
            let (kids, m2) = render_children_from(children@, 0);
            (
                NodeV::Element(
                    ElemV { tag: e1.tag, attrs: e1.attrs, onclick: e1.onclick, children: kids },
                ),
                m1 + m2,
            )
        },
    }
}

/// Values of the children from index `i` on, each freshly materialized,
/// with their messages in order.
pub open spec fn render_children_from<Msg>(children: Seq<Html<Msg>>, i: int) -> (Seq<NodeV<Msg>>, Seq<
    Arc<Msg>,
>)
    decreases children, children.len() - i,
{
    if i < 0 || i >= children.len() {
        (Seq::empty(), Seq::empty())
    } else {
        let (n, m1) = render_s(children[i]);
        let (rest, m2) = render_children_from(children, i + 1);
        (seq![n] + rest, m1 + m2)
    }
}

/// Materializes one attribute onto a live element, dispatching the mount
/// message eagerly if the attribute is a mount binding.
pub fn render_attribute<Msg>(el: &mut LiveElement<Msg>, a: &Attribute<Msg>, ctx: &mut Context<Msg>)
    ensures
        ({
            let (e2, ms) = render_attr_s(old(el)@, *a);
            final(el)@ == e2 && final(ctx).sent@ == old(ctx).sent@ + ms
        }),
{
    proof {
        assert(old(ctx).sent@ + Seq::<Arc<Msg>>::empty() =~= old(ctx).sent@);
    }
    match a {
        Attribute::OnClick(h) => {
            el.onclick = Some(share_handler(h));
        },
        Attribute::OnMount(h) => {
            ctx.dispatch(h);
            proof {
                assert(old(ctx).sent@ + seq![*h] =~= old(ctx).sent@.push(*h));
            }
        },
        Attribute::OnUnmount(h) => {},
        Attribute::Custom(n, v) => {
            el.set_attribute(n, v);
        },
        Attribute::Reserved => {},
    }
}

/// Materializes the attributes from index `i` on, in order.
pub fn render_attrs<Msg>(
    el: &mut LiveElement<Msg>,
    attrs: &Vec<Attribute<Msg>>,
    i: usize,
    ctx: &mut Context<Msg>,
)
    requires
        i <= attrs.len(),
    ensures
        ({
            let (e2, ms) = render_attrs_from(old(el)@, attrs@, i as int);
            final(el)@ == e2 && final(ctx).sent@ == old(ctx).sent@ + ms
        }),
    decreases attrs@.len() - i,
{
    if i == attrs.len() {
        proof {
            assert(old(ctx).sent@ + Seq::<Arc<Msg>>::empty() =~= old(ctx).sent@);
        }
    } else {
        let ghost (e1, m1) = render_attr_s(old(el)@, attrs@[i as int]);
        let ghost (e2, m2) = render_attrs_from(e1, attrs@, i as int + 1);
        render_attribute(el, &attrs[i], ctx);
        render_attrs(el, attrs, i + 1, ctx);
        proof {
            assert((old(ctx).sent@ + m1) + m2 =~= old(ctx).sent@ + (m1 + m2));
        }
    }
}

/// Materializes a virtual node into a fresh live node, dispatching the
/// mount messages of the whole subtree in order.
pub fn render_node<Msg>(h: &Html<Msg>, ctx: &mut Context<Msg>) -> (n: LiveNode<Msg>)
    ensures
        ({
            let (nv, ms) = render_s(*h);
            n@ == nv && final(ctx).sent@ == old(ctx).sent@ + ms
        }),
    decreases h, 0int,
{
    match h {
        Html::Text(s) => {
            proof {
                assert(old(ctx).sent@ + Seq::<Arc<Msg>>::empty() =~= old(ctx).sent@);
            }
            LiveNode::Text(s.clone())
        },
        Html::Element { tag, key, attrs, children } => {
            let mut el = LiveElement {
                tag: tag.clone(),
                attrs: Vec::new(),
                onclick: None,
                children: Vec::new(),
            };
            proof {
                assert(attr_pairs_view(Seq::<(String, String)>::empty()) =~= Seq::<
                    (Seq<char>, Seq<char>),
                >::empty());
            }
            let ghost (e1, m1) = render_attrs_from(el@, attrs@, 0);
            render_attrs(&mut el, attrs, 0, ctx);
            let kids = render_children(children, 0, ctx);
            el.children = kids;
            proof {
                let (kids_v, m2) = render_children_from(children@, 0);
                assert((old(ctx).sent@ + m1) + m2 =~= old(ctx).sent@ + (m1 + m2));
            }
            LiveNode::Element(el)
        },
    }
}

/// Materializes the children from index `i` on, in order.
pub fn render_children<Msg>(children: &Vec<Html<Msg>>, i: usize, ctx: &mut Context<Msg>) -> (out:
    Vec<LiveNode<Msg>>)
    requires
        i <= children.len(),
    ensures
        ({
            let (ns, ms) = render_children_from(children@, i as int);
            crate::document::nodes_view(out@) == ns && final(ctx).sent@ == old(ctx).sent@ + ms
        }),
    decreases children, children@.len() - i,
{
    if i == children.len() {
        let out: Vec<LiveNode<Msg>> = Vec::new();
        proof {
            assert(old(ctx).sent@ + Seq::<Arc<Msg>>::empty() =~= old(ctx).sent@);
            assert(crate::document::nodes_view(out@) =~= Seq::<NodeV<Msg>>::empty());
        }
        out
    } else {
        let ghost (nv, m1) = render_s(children@[i as int]);
        let ghost (rest_v, m2) = render_children_from(children@, i as int + 1);
        let n = render_node(&children[i], ctx);
        let mut out = render_children(children, i + 1, ctx);
        let ghost rest_out = out@;
        out.insert(0, n);
        proof {
            assert(out@ =~= seq![n] + rest_out);
            crate::document::lemma_nodes_view(out@);
            crate::document::lemma_nodes_view(rest_out);
            assert(crate::document::nodes_view(out@) =~= seq![nv] + rest_v);
            assert((old(ctx).sent@ + m1) + m2 =~= old(ctx).sent@ + (m1 + m2));
        }
        out
    }
}

} // verus!
