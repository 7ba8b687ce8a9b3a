//! A model of the live document that the reconciliation engine mutates,
//! together with the per-pass [`Context`] that collects outgoing messages.
//!
//! The document binding layer itself (node creation, attribute get/set,
//! tree mutation, handler registration) is an external capability; the
//! engine is specified and verified against this model, and an embedding
//! mirrors each model mutation onto the real document.

use crate::html::share_handler;
use std::sync::Arc;
use vstd::prelude::*;

verus! {

/// A live element: tag, named string attributes, an optional registered
/// click handler, and ordered children.
pub struct LiveElement<Msg> {
    pub tag: String,
    pub attrs: Vec<(String, String)>,
    pub onclick: Option<Arc<Msg>>,
    pub children: Vec<LiveNode<Msg>>,
}

/// A node of the live document: an element or a text node.
pub enum LiveNode<Msg> {
    Element(LiveElement<Msg>),
    Text(String),
}

/// Mathematical value of a live element.
pub struct ElemV<Msg> {
    pub tag: Seq<char>,
    pub attrs: Seq<(Seq<char>, Seq<char>)>,
    pub onclick: Option<Arc<Msg>>,
    pub children: Seq<NodeV<Msg>>,
}

/// Mathematical value of a live node.
pub enum NodeV<Msg> {
    Element(ElemV<Msg>),
    Text(Seq<char>),
}

/// View of an attribute list as name/value character sequences.
pub open spec fn attr_pairs_view(attrs: Seq<(String, String)>) -> Seq<(Seq<char>, Seq<char>)> {
    attrs.map_values(|p: (String, String)| (p.0@, p.1@))
}

/// Recursive view of a live node.
pub open spec fn node_view<Msg>(n: LiveNode<Msg>) -> NodeV<Msg>
    decreases n,
{
    match n {
        LiveNode::Text(s) => NodeV::Text(s@),
        LiveNode::Element(e) => NodeV::Element(
            ElemV {
                tag: e.tag@,
                attrs: attr_pairs_view(e.attrs@),
                onclick: e.onclick,
                children: nodes_view(e.children@),
            },
        ),
    }
}

/// Recursive view of a sequence of live nodes.
pub open spec fn nodes_view<Msg>(s: Seq<LiveNode<Msg>>) -> Seq<NodeV<Msg>>
    decreases s,
{
    if s.len() == 0 {
        Seq::empty()
    } else {
        seq![node_view(s[0])] + nodes_view(s.subrange(1, s.len() as int))
    }
}

impl<Msg> View for LiveNode<Msg> {
    type V = NodeV<Msg>;

    open spec fn view(&self) -> NodeV<Msg> {
        node_view(*self)
    }
}

impl<Msg> View for LiveElement<Msg> {
    type V = ElemV<Msg>;

    open spec fn view(&self) -> ElemV<Msg> {
        ElemV {
            tag: self.tag@,
            attrs: attr_pairs_view(self.attrs@),
            onclick: self.onclick,
            children: nodes_view(self.children@),
        }
    }
}

/// `nodes_view` is the element-wise view.
pub proof fn lemma_nodes_view<Msg>(s: Seq<LiveNode<Msg>>)
    ensures
        nodes_view(s).len() == s.len(),
        forall|i: int| 0 <= i < s.len() ==> nodes_view(s)[i] == node_view(s[i]),
    decreases s.len(),
{
    if s.len() > 0 {
        lemma_nodes_view(s.subrange(1, s.len() as int));
    }
}

/// `nodes_view` maps `push` to `push`.
pub proof fn lemma_nodes_view_push<Msg>(s: Seq<LiveNode<Msg>>, n: LiveNode<Msg>)
    ensures
        nodes_view(s.push(n)) == nodes_view(s).push(node_view(n)),
{
    lemma_nodes_view(s.push(n));
    lemma_nodes_view(s);
    assert(nodes_view(s.push(n)) =~= nodes_view(s).push(node_view(n)));
}

/// Sets a named attribute: the first pair with that name is overwritten in
/// place; a missing name is appended.
pub open spec fn set_attr_s(
    attrs: Seq<(Seq<char>, Seq<char>)>,
    name: Seq<char>,
    value: Seq<char>,
) -> Seq<(Seq<char>, Seq<char>)>
    decreases attrs.len(),
{
    if attrs.len() == 0 {
        seq![(name, value)]
    } else if attrs[0].0 == name {
        seq![(name, value)] + attrs.subrange(1, attrs.len() as int)
    } else {
        seq![attrs[0]] + set_attr_s(attrs.subrange(1, attrs.len() as int), name, value)
    }
}

/// Reads a named attribute: the value of the first pair with that name.
pub open spec fn get_attr_s(attrs: Seq<(Seq<char>, Seq<char>)>, name: Seq<char>) -> Option<
    Seq<char>,
>
    decreases attrs.len(),
{
    if attrs.len() == 0 {
        None
    } else if attrs[0].0 == name {
        Some(attrs[0].1)
    } else {
        get_attr_s(attrs.subrange(1, attrs.len() as int), name)
    }
}

/// When the first pair named `name` stands at `i`, setting overwrites it.
pub proof fn lemma_set_attr_update(
    attrs: Seq<(Seq<char>, Seq<char>)>,
    name: Seq<char>,
    value: Seq<char>,
    i: int,
)
    requires
        0 <= i < attrs.len(),
        attrs[i].0 == name,
        forall|j: int| 0 <= j < i ==> attrs[j].0 != name,
    ensures
        set_attr_s(attrs, name, value) == attrs.update(i, (name, value)),
    decreases i,
{
    let t = attrs.subrange(1, attrs.len() as int);
    if i == 0 {
        assert(seq![(name, value)] + t =~= attrs.update(0, (name, value)));
    } else {
        assert(attrs[0].0 != name);
        lemma_set_attr_update(t, name, value, i - 1);
        assert(seq![attrs[0]] + t.update(i - 1, (name, value)) =~= attrs.update(
            i,
            (name, value),
        ));
    }
}

/// When no pair is named `name`, setting appends.
pub proof fn lemma_set_attr_push(
    attrs: Seq<(Seq<char>, Seq<char>)>,
    name: Seq<char>,
    value: Seq<char>,
)
    requires
        forall|j: int| 0 <= j < attrs.len() ==> attrs[j].0 != name,
    ensures
        set_attr_s(attrs, name, value) == attrs.push((name, value)),
    decreases attrs.len(),
{
    let t = attrs.subrange(1, attrs.len() as int);
    if attrs.len() == 0 {
        assert(seq![(name, value)] =~= attrs.push((name, value)));
    } else {
        assert(forall|j: int| 0 <= j < t.len() ==> t[j].0 != name);
        lemma_set_attr_push(t, name, value);
        assert(seq![attrs[0]] + t.push((name, value)) =~= attrs.push((name, value)));
    }
}

/// Reading right after setting yields the value just set.
pub proof fn lemma_get_after_set(
    attrs: Seq<(Seq<char>, Seq<char>)>,
    name: Seq<char>,
    value: Seq<char>,
)
    ensures
        get_attr_s(set_attr_s(attrs, name, value), name) == Some(value),
    decreases attrs.len(),
{
    if attrs.len() == 0 {
    } else if attrs[0].0 == name {
        let s = set_attr_s(attrs, name, value);
        assert(s[0] == (name, value));
    } else {
        let t = attrs.subrange(1, attrs.len() as int);
        lemma_get_after_set(t, name, value);
        let s = set_attr_s(attrs, name, value);
        assert(s[0] == attrs[0]);
        assert(s.subrange(1, s.len() as int) =~= set_attr_s(t, name, value));
    }
}

/// Setting one name leaves every other name unchanged.
pub proof fn lemma_get_other_after_set(
    attrs: Seq<(Seq<char>, Seq<char>)>,
    name: Seq<char>,
    value: Seq<char>,
    other: Seq<char>,
)
    requires
        other != name,
    ensures
        get_attr_s(set_attr_s(attrs, name, value), other) == get_attr_s(attrs, other),
    decreases attrs.len(),
{
    reveal_with_fuel(get_attr_s, 3);
    if attrs.len() == 0 {
        let s = set_attr_s(attrs, name, value);
        assert(s[0] == (name, value));
        assert(s.subrange(1, s.len() as int) =~= Seq::<(Seq<char>, Seq<char>)>::empty());
    } else {
        let t = attrs.subrange(1, attrs.len() as int);
        let s = set_attr_s(attrs, name, value);
        if attrs[0].0 == name {
            assert(s[0] == (name, value));
            assert(s.subrange(1, s.len() as int) =~= t);
        } else {
            lemma_get_other_after_set(t, name, value, other);
            assert(s[0] == attrs[0]);
            assert(s.subrange(1, s.len() as int) =~= set_attr_s(t, name, value));
        }
    }
}

/// View of an optional string.
pub open spec fn opt_string_view(r: Option<String>) -> Option<Seq<char>> {
    match r {
        Some(s) => Some(s@),
        None => None,
    }
}

impl<Msg> LiveElement<Msg> {
    /// Sets the named attribute to the given value, as the document layer's
    /// generic attribute set does: overwriting in place or appending.
    pub fn set_attribute(&mut self, name: &String, value: &String)
        ensures
            final(self).tag == old(self).tag,
            final(self).onclick == old(self).onclick,
            final(self).children == old(self).children,
            attr_pairs_view(final(self).attrs@) == set_attr_s(
                attr_pairs_view(old(self).attrs@),
                name@,
                value@,
            ),
    {
        let ghost orig = attr_pairs_view(self.attrs@);
        let mut i: usize = 0;
        while i < self.attrs.len()
            invariant
                i <= self.attrs.len(),
                *self == *old(self),
                orig == attr_pairs_view(self.attrs@),
                forall|j: int| 0 <= j < i ==> orig[j].0 != name@,
            decreases self.attrs.len() - i,
        {
            assert(orig[i as int] == (self.attrs@[i as int].0@, self.attrs@[i as int].1@));
            if self.attrs[i].0 == *name {
                self.attrs.set(i, (name.clone(), value.clone()));
                proof {
                    lemma_set_attr_update(orig, name@, value@, i as int);
                    assert(attr_pairs_view(self.attrs@) =~= orig.update(i as int, (name@, value@)));
                }
                return ;
            }
            i += 1;
        }
        self.attrs.push((name.clone(), value.clone()));
        proof {
            lemma_set_attr_push(orig, name@, value@);
            assert(attr_pairs_view(self.attrs@) =~= orig.push((name@, value@)));
        }
    }

    /// Reads the named attribute, as the document layer's generic attribute
    /// get does.
    pub fn get_attribute(&self, name: &String) -> (r: Option<String>)
        ensures
            opt_string_view(r) == get_attr_s(attr_pairs_view(self.attrs@), name@),
    {
        let ghost orig = attr_pairs_view(self.attrs@);
        proof {
            assert(orig.subrange(0, orig.len() as int) =~= orig);
        }
        let mut i: usize = 0;
        while i < self.attrs.len()
            invariant
                i <= self.attrs.len(),
                orig == attr_pairs_view(self.attrs@),
                get_attr_s(orig.subrange(i as int, orig.len() as int), name@) == get_attr_s(
                    orig,
                    name@,
                ),
            decreases self.attrs.len() - i,
        {
            assert(orig[i as int] == (self.attrs@[i as int].0@, self.attrs@[i as int].1@));
            assert(orig.subrange(i as int, orig.len() as int)[0] == orig[i as int]);
            if self.attrs[i].0 == *name {
                return Some(self.attrs[i].1.clone());
            }
            proof {
                assert(orig.subrange(i as int, orig.len() as int).subrange(
                    1,
                    orig.len() - i as int,
                ) =~= orig.subrange(i as int + 1, orig.len() as int));
            }
            i += 1;
        }
        proof {
            assert(orig.subrange(orig.len() as int, orig.len() as int) =~= Seq::<
                (Seq<char>, Seq<char>),
            >::empty());
        }
        None
    }
}

/// Per-render-pass ambient state: the outgoing message log.
///
/// Each dispatched lifecycle or interaction message is appended here in
/// dispatch order; the embedding forwards the log through its channel.
pub struct Context<Msg> {
    pub sent: Vec<Arc<Msg>>,
}

impl<Msg> Context<Msg> {
    /// A fresh context with no messages dispatched yet.
    pub fn new() -> (c: Context<Msg>)
        ensures
            c.sent@ == Seq::<Arc<Msg>>::empty(),
    {
        Context { sent: Vec::new() }
    }

    /// Dispatches one message: appends it to the outgoing log.
    pub fn dispatch(&mut self, handler: &Arc<Msg>)
        ensures
            final(self).sent@ == old(self).sent@.push(*handler),
    {
        let m = share_handler(handler);
        self.sent.push(m);
    }
}

} // verus!
