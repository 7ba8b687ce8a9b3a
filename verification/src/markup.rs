//! The template compiler: a compile-time transform from pre-parsed
//! tag-based markup into typed virtual-node constructor calls, represented
//! here as structured code values that a build step emits as source text.
//!
//! Attribute classification: `onclick`, `onmount` and `onunmount` become
//! event-bound entries whose value is wrapped in a shared handle; the
//! reserved names `model`, `children` and `key` are consumed structurally
//! by the element transform and never appear in the emitted attribute
//! list; every other name becomes a custom name/value entry; an attribute
//! without a value becomes a bare marker entry.
//!
//! Error policy: a fragment, or a reserved attribute without a value,
//! aborts the transform with a diagnostic; there is no partial output.

use vstd::prelude::*;

verus! {

/// The value of an attribute in the markup source.
pub enum MarkupValue {
    /// A braced block: its single statement is passed through verbatim as
    /// an already-typed expression.
    Block(String),
    /// Any other expression: coerced to its string form.
    Literal(String),
}

/// One `name=value` (or bare `name`) attribute in the markup source.
pub struct MarkupAttr {
    pub key: String,
    pub value: Option<MarkupValue>,
}

/// An element of the markup source.
pub struct MarkupElement {
    pub name: String,
    pub attrs: Vec<MarkupAttr>,
    pub children: Vec<Markup>,
}

/// A node of the pre-parsed markup tree.
pub enum Markup {
    Element(MarkupElement),
    /// Literal text content.
    Text(String),
    /// An embedded expression standing in for a child.
    Block(String),
    /// A child list with no single wrapping element; unsupported.
    Fragment,
}

/// A value expression in the emitted code.
pub enum ValueExpr {
    /// The expression text, passed through verbatim.
    Verbatim(String),
    /// The expression text, coerced to its string form.
    Stringified(String),
}

/// The event an attribute binds.
pub enum EventKind {
    Click,
    Mount,
    Unmount,
}

/// One entry of the emitted attribute list.
pub enum AttrExpr {
    /// An event-bound attribute; its value is wrapped in a shared handle.
    Event(EventKind, ValueExpr),
    /// A custom name/value attribute.
    Custom(String, ValueExpr),
    /// A bare marker attribute with no payload.
    Marker(String),
}

/// The children argument of an emitted constructor call.
pub enum ChildrenExpr {
    /// The transformed child list, in source order.
    List(Vec<HtmlExpr>),
    /// The `children` attribute's expression, replacing the computed list
    /// outright.
    Replaced(ValueExpr),
}

/// An emitted constructor call: `tag(model?, key, attributes, children)`.
pub struct ElementCall {
    pub tag: String,
    pub model: Option<ValueExpr>,
    pub key: Option<ValueExpr>,
    pub attrs: Vec<AttrExpr>,
    pub children: ChildrenExpr,
}

/// An emitted virtual-node expression.
pub enum HtmlExpr {
    /// An element constructor call.
    Call(ElementCall),
    /// A text constructor call.
    TextCall(String),
    /// A conversion of an embedded expression into the virtual-node type.
    Conversion(String),
}

/// Why a transform was aborted.
#[derive(Debug)]
pub enum CompileError {
    /// A fragment stood where a single element was needed.
    FragmentUnsupported,
    /// A reserved attribute stood without a value.
    MissingValue,
    /// The markup held no node at all.
    EmptyMarkup,
}

/// The first attribute with the given name, if any.
pub open spec fn find_attr(attrs: Seq<MarkupAttr>, name: Seq<char>) -> Option<MarkupAttr>
    decreases attrs.len(),
{
    if attrs.len() == 0 {
        None
    } else if attrs[0].key@ == name {
        Some(attrs[0])
    } else {
        find_attr(attrs.subrange(1, attrs.len() as int), name)
    }
}

/// How a markup value is emitted: a block verbatim, anything else
/// stringified.
pub open spec fn value_expr_of(v: MarkupValue, out: ValueExpr) -> bool {
    match v {
        MarkupValue::Block(s) => out matches ValueExpr::Verbatim(t) && t@ == s@,
        MarkupValue::Literal(s) => out matches ValueExpr::Stringified(t) && t@ == s@,
    }
}

/// The event, if any, that an attribute name binds.
pub open spec fn event_kind_of(k: Seq<char>) -> Option<EventKind> {
    if k == "onclick"@ {
        Some(EventKind::Click)
    } else if k == "onmount"@ {
        Some(EventKind::Mount)
    } else if k == "onunmount"@ {
        Some(EventKind::Unmount)
    } else {
        None
    }
}

/// The reserved attribute names, consumed structurally by the element
/// transform.
pub open spec fn is_reserved_name(k: Seq<char>) -> bool {
    k == "model"@ || k == "children"@ || k == "key"@
}

/// A valued attribute with a reserved name is consumed structurally and
/// contributes nothing to the emitted attribute list.
pub open spec fn emits_nothing(a: MarkupAttr) -> bool {
    is_reserved_name(a.key@) && a.value is Some
}

/// What one attribute contributes to the emitted attribute list.
pub open spec fn attr_entry_of(a: MarkupAttr, out: AttrExpr) -> bool {
    match a.value {
        None => out matches AttrExpr::Marker(n) && n@ == a.key@,
        Some(v) => match event_kind_of(a.key@) {
            Some(k) => out matches AttrExpr::Event(k2, ve) && k2 == k && value_expr_of(v, ve),
            None => out matches AttrExpr::Custom(n, ve) && n@ == a.key@ && value_expr_of(v, ve),
        },
    }
}

/// `outs` is the emitted attribute list for the first `i` source
/// attributes: classified in order, reserved valued names skipped.
pub open spec fn attrs_list_upto(ins: Seq<MarkupAttr>, i: int, outs: Seq<AttrExpr>) -> bool
    decreases i,
{
    if i <= 0 {
        outs.len() == 0
    } else if emits_nothing(ins[i - 1]) {
        attrs_list_upto(ins, i - 1, outs)
    } else {
        outs.len() > 0 && attr_entry_of(ins[i - 1], outs.last()) && attrs_list_upto(
            ins,
            i - 1,
            outs.drop_last(),
        )
    }
}

/// One of the reserved attributes is present but has no value, so its
/// extraction would fail.
pub open spec fn reserved_missing(ins: Seq<MarkupAttr>) -> bool {
    (find_attr(ins, "model"@) matches Some(a) && a.value is None) || (find_attr(
        ins,
        "children"@,
    ) matches Some(a) && a.value is None) || (find_attr(ins, "key"@) matches Some(a)
        && a.value is None)
}

/// The first error among the children from index `i` on.
pub open spec fn children_error_from(cs: Seq<Markup>, i: int) -> Option<CompileError>
    decreases cs, cs.len() - i,
{
    if i < 0 || i >= cs.len() {
        None
    } else {
        match markup_error(cs[i]) {
            Some(e) => Some(e),
            None => children_error_from(cs, i + 1),
        }
    }
}

/// The diagnostic a markup node aborts with, if any: a fragment is
/// unsupported; in an element, the children's errors come first, then a
/// reserved attribute without a value.
pub open spec fn markup_error(m: Markup) -> Option<CompileError>
    decreases m, 0int,
{
    match m {
        Markup::Fragment => Some(CompileError::FragmentUnsupported),
        Markup::Text(s) => None,
        Markup::Block(b) => None,
        Markup::Element(el) => match children_error_from(el.children@, 0) {
            Some(e) => Some(e),
            None => if reserved_missing(el.attrs@) {
                Some(CompileError::MissingValue)
            } else {
                None
            },
        },
    }
}

/// `out` is the transform of the markup node `m`.
pub open spec fn node_transforms_to(m: Markup, out: HtmlExpr) -> bool
    decreases m, 0int,
{
    match m {
        Markup::Text(s) => out matches HtmlExpr::TextCall(t) && t@ == s@,
        Markup::Block(b) => out matches HtmlExpr::Conversion(c) && c@ == b@,
        Markup::Fragment => false,
        Markup::Element(el) => out matches HtmlExpr::Call(c) && element_transforms_to(el, c),
    }
}

/// `outs` is the transformed child list of `cs`, in order.
pub open spec fn children_transform_to(cs: Seq<Markup>, outs: Seq<HtmlExpr>) -> bool
    decreases cs, 0int,
{
    if cs.len() == 0 {
        outs.len() == 0
    } else {
        outs.len() > 0 && node_transforms_to(cs[0], outs[0]) && children_transform_to(
            cs.subrange(1, cs.len() as int),
            outs.subrange(1, outs.len() as int),
        )
    }
}

/// The child-list relation holds when it holds position by position.
pub proof fn lemma_children_transform_to(cs: Seq<Markup>, outs: Seq<HtmlExpr>)
    requires
        outs.len() == cs.len(),
        forall|j: int| 0 <= j < cs.len() ==> #[trigger] node_transforms_to(cs[j], outs[j]),
    ensures
        children_transform_to(cs, outs),
    decreases cs.len(),
{
    reveal_with_fuel(children_transform_to, 2);
    if cs.len() > 0 {
        let ct = cs.subrange(1, cs.len() as int);
        let ot = outs.subrange(1, outs.len() as int);
        assert(forall|j: int| 0 <= j < ct.len() ==> ct[j] == cs[j + 1] && ot[j] == outs[j + 1]);
        assert(node_transforms_to(cs[0], outs[0]));
        lemma_children_transform_to(ct, ot);
        assert(children_transform_to(ct, ot));
    }
}

/// `out` is the constructor call for the element `el`: its tag; `model`
/// and `key` from the attributes so named, when present; the children
/// list replaced outright by a `children` attribute, when present; and
/// the classified attribute list.
pub open spec fn element_transforms_to(el: MarkupElement, out: ElementCall) -> bool
    decreases el, 0int,
{
    out.tag@ == el.name@ && (match find_attr(el.attrs@, "model"@) {
        None => out.model is None,
        Some(a) => a.value matches Some(v) && out.model matches Some(ve) && value_expr_of(v, ve),
    }) && (match find_attr(el.attrs@, "key"@) {
        None => out.key is None,
        Some(a) => a.value matches Some(v) && out.key matches Some(ve) && value_expr_of(v, ve),
    }) && (match find_attr(el.attrs@, "children"@) {
        None => out.children matches ChildrenExpr::List(l) && children_transform_to(
            el.children@,
            l@,
        ),
        Some(a) => a.value matches Some(v) && out.children matches ChildrenExpr::Replaced(ve)
            && value_expr_of(v, ve),
    }) && attrs_list_upto(el.attrs@, el.attrs@.len() as int, out.attrs@)
}

/// Emits the value of one attribute.
fn value_expr(v: &MarkupValue) -> (r: ValueExpr)
    ensures
        value_expr_of(*v, r),
{
    match v {
        MarkupValue::Block(s) => ValueExpr::Verbatim(s.clone()),
        MarkupValue::Literal(s) => ValueExpr::Stringified(s.clone()),
    }
}

/// Extracts the named attribute's value expression, when this attribute
/// is the one named; a reserved attribute without a value is a
/// diagnostic.
pub fn get_attribute(attr: &MarkupAttr, name: &String) -> (r: Result<
    Option<ValueExpr>,
    CompileError,
>)
    ensures
        attr.key@ != name@ ==> r == Result::<Option<ValueExpr>, CompileError>::Ok(
            Option::<ValueExpr>::None,
        ),
        attr.key@ == name@ ==> match attr.value {
            Some(v) => r matches Ok(Some(ve)) && value_expr_of(v, ve),
            None => r == Result::<Option<ValueExpr>, CompileError>::Err(
                CompileError::MissingValue,
            ),
        },
{
    if attr.key == *name {
        match &attr.value {
            Some(v) => Ok(Some(value_expr(v))),
            None => Err(CompileError::MissingValue),
        }
    } else {
        Ok(None)
    }
}

/// Extracts the first attribute with the given name, transformed; absent
/// names yield nothing; a present name without a value is a diagnostic.
pub fn get_attribute_from_attrs(attrs: &Vec<MarkupAttr>, name: &String) -> (r: Result<
    Option<ValueExpr>,
    CompileError,
>)
    ensures
        match find_attr(attrs@, name@) {
            None => r == Result::<Option<ValueExpr>, CompileError>::Ok(Option::<ValueExpr>::None),
            Some(a) => match a.value {
                Some(v) => r matches Ok(Some(ve)) && value_expr_of(v, ve),
                None => r == Result::<Option<ValueExpr>, CompileError>::Err(
                    CompileError::MissingValue,
                ),
            },
        },
{
    proof {
        assert(attrs@.subrange(0, attrs@.len() as int) =~= attrs@);
    }
    let mut i: usize = 0;
    while i < attrs.len()
        invariant
            i <= attrs.len(),
            find_attr(attrs@.subrange(i as int, attrs@.len() as int), name@) == find_attr(
                attrs@,
                name@,
            ),
            forall|j: int| 0 <= j < i ==> attrs@[j].key@ != name@,
        decreases attrs.len() - i,
    {
        let ghost sub = attrs@.subrange(i as int, attrs@.len() as int);
        proof {
            assert(sub[0] == attrs@[i as int]);
            assert(sub.subrange(1, sub.len() as int) =~= attrs@.subrange(
                i as int + 1,
                attrs@.len() as int,
            ));
        }
        if attrs[i].key == *name {
            return get_attribute(&attrs[i], name);
        }
        i += 1;
    }
    proof {
        assert(attrs@.subrange(attrs@.len() as int, attrs@.len() as int) =~= Seq::<
            MarkupAttr,
        >::empty());
    }
    Ok(None)
}

/// Transforms one markup node into the virtual-node expression it
/// compiles to, or the diagnostic it aborts with.
#[verifier::loop_isolation(false)]
pub fn transform(node: &Markup) -> (r: Result<HtmlExpr, CompileError>)
    ensures
        r matches Ok(out) ==> markup_error(*node) is None && node_transforms_to(*node, out),
        r matches Err(e) ==> markup_error(*node) == Some(e),
    decreases node, 0int,
{
    match node {
        Markup::Text(s) => Ok(HtmlExpr::TextCall(s.clone())),
        Markup::Block(b) => Ok(HtmlExpr::Conversion(b.clone())),
        Markup::Fragment => Err(CompileError::FragmentUnsupported),
        Markup::Element(el) => {
            let mut kids: Vec<HtmlExpr> = Vec::new();
            let mut j: usize = 0;
            while j < el.children.len()
                invariant
                    j <= el.children.len(),
                    kids@.len() == j,
                    forall|q: int|
                        0 <= q < j ==> #[trigger] node_transforms_to(el.children@[q], kids@[q]),
                    children_error_from(el.children@, j as int) == children_error_from(
                        el.children@,
                        0,
                    ),
                decreases el.children.len() - j,
            {
                match transform(&el.children[j]) {
                    Ok(k) => {
                        kids.push(k);
                    },
                    Err(e) => {
                        proof {
                            assert(children_error_from(el.children@, j as int) == Some(e));
                        }
                        return Err(e);
                    },
                }
                j += 1;
            }
            proof {
                assert(children_error_from(el.children@, 0) is None);
            }
            let model_name: String = "model".to_owned();
            let children_name: String = "children".to_owned();
            let key_name: String = "key".to_owned();
            let onclick_name: String = "onclick".to_owned();
            let onmount_name: String = "onmount".to_owned();
            let onunmount_name: String = "onunmount".to_owned();
            let model = match get_attribute_from_attrs(&el.attrs, &model_name) {
                Ok(x) => x,
                Err(e) => {
                    return Err(e);
                },
            };
            let children_attr = match get_attribute_from_attrs(&el.attrs, &children_name) {
                Ok(x) => x,
                Err(e) => {
                    return Err(e);
                },
            };
            let key = match get_attribute_from_attrs(&el.attrs, &key_name) {
                Ok(x) => x,
                Err(e) => {
                    return Err(e);
                },
            };
            let mut outs: Vec<AttrExpr> = Vec::new();
            let mut i: usize = 0;
            while i < el.attrs.len()
                invariant
                    i <= el.attrs.len(),
                    attrs_list_upto(el.attrs@, i as int, outs@),
                decreases el.attrs.len() - i,
            {
                let a = &el.attrs[i];
                let ghost prev = outs@;
                match &a.value {
                    None => {
                        outs.push(AttrExpr::Marker(a.key.clone()));
                    },
                    Some(v) => {
                        if a.key == model_name || a.key == children_name || a.key == key_name {
                        } else if a.key == onclick_name {
                            outs.push(AttrExpr::Event(EventKind::Click, value_expr(v)));
                        } else if a.key == onmount_name {
                            outs.push(AttrExpr::Event(EventKind::Mount, value_expr(v)));
                        } else if a.key == onunmount_name {
                            outs.push(AttrExpr::Event(EventKind::Unmount, value_expr(v)));
                        } else {
                            outs.push(AttrExpr::Custom(a.key.clone(), value_expr(v)));
                        }
                    },
                }
                proof {
                    if outs@.len() > prev.len() {
                        assert(outs@.drop_last() =~= prev);
                    }
                }
                i += 1;
            }
            let ghost kids_v = kids@;
            let children_expr = match children_attr {
                Some(ve) => ChildrenExpr::Replaced(ve),
                None => ChildrenExpr::List(kids),
            };
            let call = ElementCall {
                tag: el.name.clone(),
                model,
                key,
                attrs: outs,
                children: children_expr,
            };
            proof {
                if find_attr(el.attrs@, "children"@) is None {
                    lemma_children_transform_to(el.children@, kids_v);
                }
                assert(element_transforms_to(*el, call));
            }
            Ok(HtmlExpr::Call(call))
        },
    }
}

/// Compiles a markup tree: the first node is transformed; markup with no
/// node at all is a diagnostic.
pub fn html(nodes: &Vec<Markup>) -> (r: Result<HtmlExpr, CompileError>)
    ensures
        nodes@.len() == 0 ==> r == Result::<HtmlExpr, CompileError>::Err(CompileError::EmptyMarkup),
        nodes@.len() > 0 ==> ({
            (r matches Ok(out) ==> markup_error(nodes@[0]) is None && node_transforms_to(
                nodes@[0],
                out,
            )) && (r matches Err(e) ==> markup_error(nodes@[0]) == Some(e))
        }),
{
    if nodes.len() == 0 {
        Err(CompileError::EmptyMarkup)
    } else {
        transform(&nodes[0])
    }
}

} // verus!
