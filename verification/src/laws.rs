//! Laws of the reconciliation engine, stated over the specification
//! functions that the engine's contracts use.

use crate::document::{
    get_attr_s, lemma_get_after_set, lemma_get_other_after_set, ElemV, NodeV,
};
use crate::html::{Attribute, Html};
use crate::patch::{apply_children_s, apply_patch_s, attr_patch_s, attr_patches_from, AttrPatch, Patch};
use crate::render::{render_attr_s, render_attrs_from, render_children_from, render_s};
use std::sync::Arc;
use vstd::prelude::*;

verus! {

/// Applying `Nothing` to any live node leaves it unchanged — same value,
/// same children, same attributes — and dispatches no message.
pub proof fn lemma_nothing_is_idempotent<Msg>(n: NodeV<Msg>)
    ensures
        apply_patch_s(Patch::<Msg>::Nothing, n) == (Some(n), Seq::<Arc<Msg>>::empty()),
{
}

/// A child-patch list of `Nothing` everywhere leaves the children
/// snapshot unchanged and dispatches no message, whatever the lengths.
pub proof fn lemma_all_nothing_keeps_children<Msg>(snap: Seq<NodeV<Msg>>, cs: Seq<Patch<Msg>>)
    requires
        forall|j: int| 0 <= j < cs.len() ==> cs[j] == Patch::<Msg>::Nothing,
    ensures
        apply_children_s(snap, cs) == (snap, Seq::<Arc<Msg>>::empty()),
    decreases cs.len(),
{
    if cs.len() > 0 {
        let ct = cs.subrange(1, cs.len() as int);
        assert(cs[0] == Patch::<Msg>::Nothing);
        assert(forall|j: int| 0 <= j < ct.len() ==> ct[j] == cs[j + 1]);
        if snap.len() > 0 {
            let st = snap.subrange(1, snap.len() as int);
            lemma_all_nothing_keeps_children(st, ct);
            assert(apply_patch_s(cs[0], snap[0]) == (Some(snap[0]), Seq::<Arc<Msg>>::empty()));
            assert(seq![snap[0]] + st =~= snap);
            assert(Seq::<Arc<Msg>>::empty() + Seq::<Arc<Msg>>::empty() =~= Seq::<
                Arc<Msg>,
            >::empty());
        } else {
            lemma_all_nothing_keeps_children(snap, ct);
        }
    }
}

/// Applying `Remove` at position `k` of an update detaches exactly the
/// targeted child and none of its siblings: the remaining children are the
/// snapshot with position `k` left out, in their original relative order.
pub proof fn lemma_remove_detaches_exactly<Msg>(
    snap: Seq<NodeV<Msg>>,
    cs: Seq<Patch<Msg>>,
    k: int,
)
    requires
        cs.len() <= snap.len(),
        0 <= k < cs.len(),
        cs[k] == Patch::<Msg>::Remove,
        forall|j: int| 0 <= j < cs.len() && j != k ==> cs[j] == Patch::<Msg>::Nothing,
    ensures
        apply_children_s(snap, cs) == (snap.remove(k), Seq::<Arc<Msg>>::empty()),
    decreases cs.len(),
{
    let st = snap.subrange(1, snap.len() as int);
    let ct = cs.subrange(1, cs.len() as int);
    assert(forall|j: int| 0 <= j < ct.len() ==> ct[j] == cs[j + 1]);
    if k == 0 {
        lemma_all_nothing_keeps_children(st, ct);
        assert(apply_patch_s(cs[0], snap[0]) == (
            None::<NodeV<Msg>>,
            Seq::<Arc<Msg>>::empty(),
        ));
        assert(st =~= snap.remove(0));
        assert(Seq::<Arc<Msg>>::empty() + Seq::<Arc<Msg>>::empty() =~= Seq::<Arc<Msg>>::empty());
    } else {
        lemma_remove_detaches_exactly(st, ct, k - 1);
        assert(cs[0] == Patch::<Msg>::Nothing);
        assert(apply_patch_s(cs[0], snap[0]) == (Some(snap[0]), Seq::<Arc<Msg>>::empty()));
        assert(seq![snap[0]] + st.remove(k - 1) =~= snap.remove(k));
        assert(Seq::<Arc<Msg>>::empty() + Seq::<Arc<Msg>>::empty() =~= Seq::<Arc<Msg>>::empty());
    }
}

/// Within one update, all child patches act strictly before any attribute
/// patch on the same element: the updated element is obtained by patching
/// the children snapshot first and applying the attribute patches to the
/// element that already carries the new children, and the child patches'
/// messages precede the attribute patches' messages.
pub proof fn lemma_update_children_before_attributes<Msg>(
    cs: Vec<Patch<Msg>>,
    aps: Vec<AttrPatch<Msg>>,
    e: ElemV<Msg>,
)
    ensures
        ({
            let (kids, m1) = apply_children_s(e.children, cs@);
            let with_children = ElemV {
                tag: e.tag,
                attrs: e.attrs,
                onclick: e.onclick,
                children: kids,
            };
            let (e2, m2) = attr_patches_from(with_children, aps@, 0);
            apply_patch_s(Patch::Update(cs, aps), NodeV::Element(e)) == (
                Some(NodeV::Element(e2)),
                m1 + m2,
            )
        }),
{
}

/// Splitting an update's child-patch list at the snapshot length: the
/// in-range prefix acts on the snapshot children, everything beyond the
/// snapshot acts against the parent, and its results are appended after
/// the patched children.
pub proof fn lemma_children_split_at_snapshot<Msg>(snap: Seq<NodeV<Msg>>, cs: Seq<Patch<Msg>>)
    requires
        cs.len() >= snap.len(),
    ensures
        ({
            let (front, m1) = apply_children_s(snap, cs.subrange(0, snap.len() as int));
            let (back, m2) = apply_children_s(
                Seq::<NodeV<Msg>>::empty(),
                cs.subrange(snap.len() as int, cs.len() as int),
            );
            apply_children_s(snap, cs) == (front + back, m1 + m2)
        }),
    decreases snap.len(),
{
    if snap.len() == 0 {
        assert(snap =~= Seq::<NodeV<Msg>>::empty());
        let (back, m2) = apply_children_s(
            Seq::<NodeV<Msg>>::empty(),
            cs.subrange(0, cs.len() as int),
        );
        assert(cs.subrange(0, cs.len() as int) =~= cs);
        assert(snap + back =~= back);
        assert(Seq::<Arc<Msg>>::empty() + m2 =~= m2);
    } else {
        let st = snap.subrange(1, snap.len() as int);
        let ct = cs.subrange(1, cs.len() as int);
        lemma_children_split_at_snapshot(st, ct);
        let (r, m1) = apply_patch_s(cs[0], snap[0]);
        let pre = cs.subrange(0, snap.len() as int);
        assert(pre[0] == cs[0]);
        assert(pre.subrange(1, pre.len() as int) =~= ct.subrange(0, st.len() as int));
        assert(ct.subrange(st.len() as int, ct.len() as int) =~= cs.subrange(
            snap.len() as int,
            cs.len() as int,
        ));
        let (front_t, f1) = apply_children_s(st, ct.subrange(0, st.len() as int));
        let (back, m2) = apply_children_s(
            Seq::<NodeV<Msg>>::empty(),
            cs.subrange(snap.len() as int, cs.len() as int),
        );
        assert(apply_children_s(st, ct) == (front_t + back, f1 + m2));
        let lhs = apply_children_s(snap, cs);
        assert(lhs.1 == m1 + (f1 + m2));
        let front_full = apply_children_s(snap, pre);
        assert(front_full.1 == m1 + f1);
        match r {
            Some(nv) => {
                assert(lhs.0 == seq![nv] + (front_t + back));
                assert(front_full.0 == seq![nv] + front_t);
                assert((seq![nv] + front_t) + back =~= seq![nv] + (front_t + back));
            },
            None => {
                assert(lhs.0 == front_t + back);
                assert(front_full.0 == front_t);
            },
        }
        assert((m1 + f1) + m2 =~= m1 + (f1 + m2));
    }
}

/// Child patches beyond the live children snapshot are treated as appends
/// against the parent: each addition materializes its node, the results
/// stand in patch order, and nothing fails or is dropped.
pub proof fn lemma_fallback_appends<Msg>(cs: Seq<Patch<Msg>>)
    requires
        forall|j: int| 0 <= j < cs.len() ==> #[trigger] cs[j] matches Patch::Add(_),
    ensures
        apply_children_s(Seq::<NodeV<Msg>>::empty(), cs).0.len() == cs.len(),
        forall|j: int|
            0 <= j < cs.len() ==> apply_children_s(Seq::<NodeV<Msg>>::empty(), cs).0[j]
                == render_s(cs[j]->Add_0).0,
    decreases cs.len(),
{
    if cs.len() > 0 {
        let ct = cs.subrange(1, cs.len() as int);
        lemma_fallback_appends(ct);
        assert(cs[0] matches Patch::Add(_));
    }
}

/// The mount messages of an attribute list: one message per mount
/// binding, in list order.
pub open spec fn mount_messages<Msg>(attrs: Seq<Attribute<Msg>>) -> Seq<Arc<Msg>>
    decreases attrs.len(),
{
    if attrs.len() == 0 {
        Seq::empty()
    } else {
        (match attrs[0] {
            Attribute::OnMount(h) => seq![h],
            _ => Seq::empty(),
        }) + mount_messages(attrs.subrange(1, attrs.len() as int))
    }
}

/// Materializing an attribute list dispatches exactly the mount messages,
/// once per mount binding, in order — no other attribute dispatches.
pub proof fn lemma_attrs_dispatch_mounts_once<Msg>(
    e: ElemV<Msg>,
    attrs: Seq<Attribute<Msg>>,
    i: int,
)
    requires
        0 <= i <= attrs.len(),
    ensures
        render_attrs_from(e, attrs, i).1 == mount_messages(attrs.subrange(i, attrs.len() as int)),
    decreases attrs.len() - i,
{
    let sub = attrs.subrange(i, attrs.len() as int);
    if i == attrs.len() {
        assert(sub.len() == 0);
    } else {
        let (e1, m1) = render_attr_s(e, attrs[i]);
        lemma_attrs_dispatch_mounts_once(e1, attrs, i + 1);
        assert(sub[0] == attrs[i]);
        assert(sub.subrange(1, sub.len() as int) =~= attrs.subrange(i + 1, attrs.len() as int));
        assert(m1 + render_attrs_from(e1, attrs, i + 1).1 =~= mount_messages(sub));
    }
}

/// Mount fires once, eagerly: materializing an element dispatches exactly
/// one message per mount binding among its attributes, in attribute
/// order, before any message of its children.
pub proof fn lemma_mount_fires_once_eagerly<Msg>(
    tag: String,
    key: Option<String>,
    attrs: Vec<Attribute<Msg>>,
    children: Vec<Html<Msg>>,
)
    ensures
        render_s(Html::Element { tag, key, attrs, children }).1 == mount_messages(attrs@)
            + render_children_from(children@, 0).1,
{
    let e0 = ElemV::<Msg> {
        tag: tag@,
        attrs: Seq::empty(),
        onclick: None,
        children: Seq::empty(),
    };
    lemma_attrs_dispatch_mounts_once(e0, attrs@, 0);
    assert(attrs@.subrange(0, attrs@.len() as int) =~= attrs@);
}

/// Unmount fires once, on removal, and only then: the only attribute
/// patches that dispatch are removing an unmount binding, which dispatches
/// that binding's message exactly once, and adding a mount binding, which
/// dispatches eagerly as materialization does.  Every other attribute
/// patch dispatches nothing.
pub proof fn lemma_unmount_fires_once_on_removal<Msg>(e: ElemV<Msg>, p: AttrPatch<Msg>)
    ensures
        p matches AttrPatch::Remove(Attribute::OnUnmount(h)) ==> attr_patch_s(e, p).1 == seq![h],
        p matches AttrPatch::Add(Attribute::OnMount(h)) ==> attr_patch_s(e, p).1 == seq![h],
        !(p matches AttrPatch::Remove(Attribute::OnUnmount(_))) && !(p matches AttrPatch::Add(
            Attribute::OnMount(_),
        )) ==> attr_patch_s(e, p).1 == Seq::<Arc<Msg>>::empty(),
{
    match p {
        AttrPatch::Add(a) => {
            match a {
                Attribute::OnMount(h) => {
                    assert(attr_patch_s(e, p).1 == seq![h]);
                },
                _ => {
                    assert(attr_patch_s(e, p).1 == Seq::<Arc<Msg>>::empty());
                },
            }
        },
        AttrPatch::Remove(a) => {
            match a {
                Attribute::OnUnmount(h) => {
                    assert(attr_patch_s(e, p).1 == seq![h]);
                },
                _ => {
                    assert(attr_patch_s(e, p).1 == Seq::<Arc<Msg>>::empty());
                },
            }
        },
    }
}

/// A custom attribute round trip: adding `name=value` and then removing it
/// leaves the attribute present and set to the empty string — cleared, not
/// deleted — while every other attribute keeps its value, and neither step
/// dispatches a message.
pub proof fn lemma_custom_round_trip_clears<Msg>(
    e: ElemV<Msg>,
    name: String,
    value: String,
    other: Seq<char>,
)
    ensures
        ({
            let (e1, m1) = attr_patch_s(e, AttrPatch::<Msg>::Add(Attribute::Custom(name, value)));
            let (e2, m2) = attr_patch_s(
                e1,
                AttrPatch::<Msg>::Remove(Attribute::Custom(name, value)),
            );
            get_attr_s(e2.attrs, name@) == Some(Seq::<char>::empty()) && (other != name@
                ==> get_attr_s(e2.attrs, other) == get_attr_s(e.attrs, other)) && m1 + m2 == Seq::<
                Arc<Msg>,
            >::empty()
        }),
{
    lemma_get_after_set(set_attr_s_of(e, name, value), name@, Seq::<char>::empty());
    if other != name@ {
        lemma_get_other_after_set(e.attrs, name@, value@, other);
        lemma_get_other_after_set(set_attr_s_of(e, name, value), name@, Seq::<char>::empty(), other);
    }
    assert(Seq::<Arc<Msg>>::empty() + Seq::<Arc<Msg>>::empty() =~= Seq::<Arc<Msg>>::empty());
}

/// The attribute list after setting `name=value` on `e`.
spec fn set_attr_s_of<Msg>(e: ElemV<Msg>, name: String, value: String) -> Seq<
    (Seq<char>, Seq<char>),
> {
    crate::document::set_attr_s(e.attrs, name@, value@)
}

} // verus!
