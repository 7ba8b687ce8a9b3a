//! The virtual node model: the typed tree describing a desired UI shape.

use std::sync::Arc;
use vstd::prelude::*;

verus! {

/// An attribute of a virtual element, parameterized by the application's
/// message type.
///
/// Event-bound variants carry a shared, reference-counted handler so the
/// same value stays reachable both from the tree and from any closure
/// created while a patch is applied.
pub enum Attribute<Msg> {
    /// Click handler: dispatched when the element is clicked.
    OnClick(Arc<Msg>),
    /// Mount handler: dispatched eagerly, when the element materializes.
    OnMount(Arc<Msg>),
    /// Unmount handler: dispatched when the binding is removed.
    OnUnmount(Arc<Msg>),
    /// A plain name/value pair, set and cleared by name.
    Custom(String, String),
    /// A framework-reserved marker attribute with no payload; rendering it
    /// performs no document mutation.
    Reserved,
}

/// A virtual node: an element with a tag, an optional stable identity key,
/// an ordered attribute list and ordered children, or a text leaf.
///
/// Virtual nodes are immutable once built; they are constructed by view
/// code (or by the template compiler's output) and consumed by the diff.
pub enum Html<Msg> {
    Element {
        tag: String,
        key: Option<String>,
        attrs: Vec<Attribute<Msg>>,
        children: Vec<Html<Msg>>,
    },
    Text(String),
}

/// Builds a text leaf.
pub fn text<Msg>(content: String) -> (h: Html<Msg>)
    ensures
        h == Html::<Msg>::Text(content),
{
    Html::Text(content)
}

/// Builds an element node.
pub fn element<Msg>(
    tag: String,
    key: Option<String>,
    attrs: Vec<Attribute<Msg>>,
    children: Vec<Html<Msg>>,
) -> (h: Html<Msg>)
    ensures
        h == (Html::Element { tag, key, attrs, children }),
{
    Html::Element { tag, key, attrs, children }
}

/// Relies on `std::sync::Arc::clone`: the result is a handle to the same
/// shared value as the argument.
#[verifier::external_body]
pub(crate) fn share_handler<Msg>(handler: &Arc<Msg>) -> (r: Arc<Msg>)
    ensures
        r == *handler,
{
    Arc::clone(handler)
}

} // verus!
