use roko_core::command::{cmd, CmdError, CmdFn, CmdParam};
use roko_core::markup::{
    html, transform, AttrExpr, ChildrenExpr, CompileError, EventKind, HtmlExpr, Markup,
    MarkupAttr, MarkupElement, MarkupValue, ValueExpr,
};

fn attr(key: &str, value: Option<MarkupValue>) -> MarkupAttr {
    MarkupAttr { key: key.to_string(), value }
}

fn block(s: &str) -> MarkupValue {
    MarkupValue::Block(s.to_string())
}

fn literal(s: &str) -> MarkupValue {
    MarkupValue::Literal(s.to_string())
}

fn element(name: &str, attrs: Vec<MarkupAttr>, children: Vec<Markup>) -> Markup {
    Markup::Element(MarkupElement { name: name.to_string(), attrs, children })
}

fn as_call(e: HtmlExpr) -> roko_core::markup::ElementCall {
    match e {
        HtmlExpr::Call(c) => c,
        _ => panic!("expected a constructor call"),
    }
}

#[test]
fn golden_div_with_key_click_and_text() {
    // <div key={k} onclick={Msg::Clicked}>text</div>
    let markup = element(
        "div",
        vec![
            attr("key", Some(block("k"))),
            attr("onclick", Some(block("Msg::Clicked"))),
        ],
        vec![Markup::Text("text".to_string())],
    );
    let call = as_call(transform(&markup).expect("golden case compiles"));
    assert_eq!(call.tag, "div");
    assert!(call.model.is_none());
    // The key is passed as a present-optional value.
    match call.key {
        Some(ValueExpr::Verbatim(k)) => assert_eq!(k, "k"),
        other => panic!("key must be the verbatim expression, found {:?}", other.is_some()),
    }
    // Exactly one attribute entry, event-bound, with a shared handle.
    assert_eq!(call.attrs.len(), 1);
    match &call.attrs[0] {
        AttrExpr::Event(EventKind::Click, ValueExpr::Verbatim(v)) => {
            assert_eq!(v, "Msg::Clicked")
        }
        _ => panic!("expected one click-bound attribute entry"),
    }
    // A single text child.
    match call.children {
        ChildrenExpr::List(l) => {
            assert_eq!(l.len(), 1);
            match &l[0] {
                HtmlExpr::TextCall(t) => assert_eq!(t, "text"),
                _ => panic!("expected a text child"),
            }
        }
        _ => panic!("expected the computed child list"),
    }
}

#[test]
fn model_attribute_shifts_the_call_arity() {
    let without = as_call(transform(&element("div", vec![], vec![])).expect("compiles"));
    assert!(without.model.is_none());
    let with = as_call(
        transform(&element("div", vec![attr("model", Some(block("state")))], vec![]))
            .expect("compiles"),
    );
    match with.model {
        Some(ValueExpr::Verbatim(m)) => assert_eq!(m, "state"),
        _ => panic!("model must be passed as an extra leading argument"),
    }
    // The model attribute never appears in the emitted attribute list.
    assert_eq!(with.attrs.len(), 0);
}

#[test]
fn children_attribute_replaces_the_child_list() {
    let markup = element(
        "div",
        vec![attr("children", Some(block("generated")))],
        vec![
            Markup::Text("ignored-a".to_string()),
            Markup::Text("ignored-b".to_string()),
        ],
    );
    let call = as_call(transform(&markup).expect("compiles"));
    match call.children {
        ChildrenExpr::Replaced(ValueExpr::Verbatim(c)) => assert_eq!(c, "generated"),
        _ => panic!("children attribute must replace the computed list outright"),
    }
    assert_eq!(call.attrs.len(), 0);
}

#[test]
fn custom_attribute_is_stringified() {
    let markup = element("div", vec![attr("data-x", Some(literal("1")))], vec![]);
    let call = as_call(transform(&markup).expect("compiles"));
    assert_eq!(call.attrs.len(), 1);
    match &call.attrs[0] {
        AttrExpr::Custom(n, ValueExpr::Stringified(v)) => {
            assert_eq!(n, "data-x");
            assert_eq!(v, "1");
        }
        _ => panic!("expected a custom attribute entry"),
    }
}

#[test]
fn valueless_attribute_becomes_a_marker() {
    let markup = element("input", vec![attr("disabled", None)], vec![]);
    let call = as_call(transform(&markup).expect("compiles"));
    assert_eq!(call.attrs.len(), 1);
    match &call.attrs[0] {
        AttrExpr::Marker(n) => assert_eq!(n, "disabled"),
        _ => panic!("expected a marker attribute entry"),
    }
}

#[test]
fn embedded_block_becomes_a_conversion() {
    let markup = element(
        "div",
        vec![],
        vec![Markup::Block("child_view(model)".to_string())],
    );
    let call = as_call(transform(&markup).expect("compiles"));
    match call.children {
        ChildrenExpr::List(l) => {
            assert_eq!(l.len(), 1);
            match &l[0] {
                HtmlExpr::Conversion(c) => assert_eq!(c, "child_view(model)"),
                _ => panic!("expected a conversion child"),
            }
        }
        _ => panic!("expected the computed child list"),
    }
}

#[test]
fn fragment_is_rejected() {
    assert!(matches!(
        transform(&Markup::Fragment),
        Err(CompileError::FragmentUnsupported)
    ));
    // Also when a fragment stands among an element's children.
    let markup = element("div", vec![], vec![Markup::Fragment]);
    assert!(matches!(
        transform(&markup),
        Err(CompileError::FragmentUnsupported)
    ));
}

#[test]
fn reserved_attribute_without_value_is_rejected() {
    let markup = element("div", vec![attr("key", None)], vec![]);
    assert!(matches!(transform(&markup), Err(CompileError::MissingValue)));
}

#[test]
fn empty_markup_is_rejected() {
    let nodes: Vec<Markup> = vec![];
    assert!(matches!(html(&nodes), Err(CompileError::EmptyMarkup)));
}

#[test]
fn html_compiles_the_first_node() {
    let nodes = vec![element("div", vec![], vec![])];
    let call = as_call(html(&nodes).expect("compiles"));
    assert_eq!(call.tag, "div");
}

#[test]
fn cmd_rejects_synchronous_functions() {
    let f = CmdFn { name: "step".to_string(), is_async: false, params: vec![] };
    assert!(matches!(cmd(&f), Err(CmdError::NotAsync)));
}

#[test]
fn cmd_rejects_destructuring_patterns() {
    let f = CmdFn {
        name: "step".to_string(),
        is_async: true,
        params: vec![CmdParam::Destructured],
    };
    assert!(matches!(cmd(&f), Err(CmdError::UnsupportedPattern)));
}

#[test]
fn cmd_renames_and_passes_arguments_through() {
    let f = CmdFn {
        name: "fetch_data".to_string(),
        is_async: true,
        params: vec![
            CmdParam::Ident { name: "url".to_string(), ty: "String".to_string() },
            CmdParam::Ident { name: "retries".to_string(), ty: "u32".to_string() },
        ],
    };
    let exp = cmd(&f).expect("a simple asynchronous function expands");
    assert_eq!(exp.public_name, "fetch_data");
    assert_eq!(exp.future_name, "fetch_data_future");
    assert_eq!(exp.args, vec!["url".to_string(), "retries".to_string()]);
}
