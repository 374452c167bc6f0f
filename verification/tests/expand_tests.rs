use mview::mview_impl;
use mview::token::{Delim, Token};

fn ident(name: &str) -> Token {
    Token::Ident { name: name.to_string(), spaced: true }
}

fn ident_joined(name: &str) -> Token {
    Token::Ident { name: name.to_string(), spaced: false }
}

fn punct(ch: char) -> Token {
    Token::Punct { ch, spaced: true }
}

fn punct_joined(ch: char) -> Token {
    Token::Punct { ch, spaced: false }
}

fn lit_str(text: &str) -> Token {
    Token::LitStr { text: text.to_string() }
}

fn lit_int(digits: &str) -> Token {
    Token::LitInt { digits: digits.to_string() }
}

fn open(delim: Delim) -> Token {
    Token::Open { delim }
}

fn close(delim: Delim) -> Token {
    Token::Close { delim }
}

#[test]
fn single_element_with_class_and_nested_child() {
    // div.primary { strong { "hello" } }
    let toks = vec![
        ident("div"),
        punct_joined('.'),
        ident_joined("primary"),
        open(Delim::Brace),
        ident("strong"),
        open(Delim::Brace),
        lit_str("hello"),
        close(Delim::Brace),
        close(Delim::Brace),
    ];
    let out = mview_impl(toks);
    assert!(out.diag.is_none());
    assert_eq!(
        out.code,
        "{ div().class(\"primary\", true).child(strong().child(\"hello\")) }"
    );
}

#[test]
fn self_closing_input_with_literal_and_boolean_attr() {
    // input type="text" checked;
    let toks = vec![
        ident("input"),
        ident("type"),
        punct_joined('='),
        lit_str("text"),
        ident("checked"),
        punct_joined(';'),
    ];
    let out = mview_impl(toks);
    assert!(out.diag.is_none());
    assert_eq!(out.code, "{ input().attr(\"type\", \"text\").attr(\"checked\", true) }");
}

#[test]
fn shorthand_attr_equals_explicit_pair() {
    // input {aria-label};  versus  input aria-label={aria_label};
    let shorthand = vec![
        ident("input"),
        open(Delim::Brace),
        ident_joined("aria"),
        punct_joined('-'),
        ident_joined("label"),
        close(Delim::Brace),
        punct_joined(';'),
    ];
    let explicit = vec![
        ident("input"),
        ident("aria"),
        punct_joined('-'),
        ident_joined("label"),
        punct_joined('='),
        open(Delim::Brace),
        ident_joined("aria_label"),
        close(Delim::Brace),
        punct_joined(';'),
    ];
    let a = mview_impl(shorthand);
    let b = mview_impl(explicit);
    assert!(a.diag.is_none());
    assert!(b.diag.is_none());
    assert_eq!(a.code, b.code);
    assert_eq!(a.code, "{ input().attr(\"aria-label\", { aria_label }) }");
}

#[test]
fn boolean_attr_equals_explicit_true() {
    // LotsOfFlags wide;  versus  LotsOfFlags wide=true;
    let bare = vec![ident("LotsOfFlags"), ident("wide"), punct_joined(';')];
    let explicit = vec![
        ident("LotsOfFlags"),
        ident("wide"),
        punct_joined('='),
        ident_joined("true"),
        punct_joined(';'),
    ];
    let a = mview_impl(bare);
    let b = mview_impl(explicit);
    assert!(a.diag.is_none());
    assert_eq!(a.code, b.code);
    assert_eq!(a.code, "{ LotsOfFlags().wide(true) }");
}

#[test]
fn bracket_value_equals_move_closure_block() {
    // input checked=[signal()];  versus  input checked={move || signal()};
    let bracket = vec![
        ident("input"),
        ident("checked"),
        punct_joined('='),
        open(Delim::Bracket),
        ident_joined("signal"),
        open(Delim::Paren),
        close(Delim::Paren),
        close(Delim::Bracket),
        punct_joined(';'),
    ];
    let block = vec![
        ident("input"),
        ident("checked"),
        punct_joined('='),
        open(Delim::Brace),
        ident_joined("move"),
        punct('|'),
        punct_joined('|'),
        ident("signal"),
        open(Delim::Paren),
        close(Delim::Paren),
        close(Delim::Brace),
        punct_joined(';'),
    ];
    let a = mview_impl(bracket);
    assert!(a.diag.is_none());
    assert_eq!(a.code, "{ input().attr(\"checked\", { move | | signal ( ) }) }");
    let b = mview_impl(block);
    assert!(b.diag.is_none());
    assert_eq!(a.code, b.code);
}

#[test]
fn zero_children_build_an_empty_fragment() {
    let out = mview_impl(Vec::new());
    assert!(out.diag.is_none());
    assert_eq!(out.code, "{ Fragment::new(vec![]) }");
}

#[test]
fn two_roots_build_a_fragment_in_source_order() {
    // br; input;
    let toks = vec![
        ident("br"),
        punct_joined(';'),
        ident("input"),
        punct_joined(';'),
    ];
    let out = mview_impl(toks);
    assert!(out.diag.is_none());
    assert_eq!(out.code, "{ Fragment::new(vec![br().into_view(), input().into_view()]) }");
}

#[test]
fn single_root_has_no_fragment_wrapper() {
    let toks = vec![ident("br"), punct_joined(';')];
    let out = mview_impl(toks);
    assert!(out.diag.is_none());
    assert_eq!(out.code, "{ br() }");
    assert!(!out.code.contains("Fragment"));
}

#[test]
fn several_children_of_an_element_build_a_nested_fragment() {
    // div { "a" "b" }
    let toks = vec![
        ident("div"),
        open(Delim::Brace),
        lit_str("a"),
        lit_str("b"),
        close(Delim::Brace),
    ];
    let out = mview_impl(toks);
    assert!(out.diag.is_none());
    assert_eq!(
        out.code,
        "{ div().child(Fragment::new(vec![\"a\".into_view(), \"b\".into_view()])) }"
    );
}

#[test]
fn empty_child_block_attaches_nothing() {
    let toks = vec![ident("div"), open(Delim::Brace), close(Delim::Brace)];
    let out = mview_impl(toks);
    assert!(out.diag.is_none());
    assert_eq!(out.code, "{ div() }");
}

#[test]
fn numeric_literal_child_aborts() {
    let toks = vec![lit_int("0")];
    let out = mview_impl(toks);
    assert_eq!(out.code, "()");
    let d = out.diag.expect("expected a diagnostic");
    assert_eq!(d.at, 0);
    assert_eq!(d.msg, "only string literals are allowed in children");
}

#[test]
fn boolean_literal_child_aborts() {
    let toks = vec![
        ident("p"),
        open(Delim::Brace),
        lit_str("x"),
        ident("true"),
        close(Delim::Brace),
    ];
    let out = mview_impl(toks);
    assert_eq!(out.code, "()");
    let d = out.diag.expect("expected a diagnostic");
    assert_eq!(d.msg, "only string literals are allowed in children");
}

#[test]
fn braced_literal_child_is_accepted() {
    // the same number, wrapped in braces, is an opaque block child
    let toks = vec![open(Delim::Brace), lit_int("0"), close(Delim::Brace)];
    let out = mview_impl(toks);
    assert!(out.diag.is_none());
    assert_eq!(out.code, "{ { 0 } }");
}

#[test]
fn style_directive_rejected_on_component() {
    // Comp style:color="red";
    let toks = vec![
        ident("Comp"),
        ident("style"),
        punct_joined(':'),
        ident_joined("color"),
        punct_joined('='),
        lit_str("red"),
        punct_joined(';'),
    ];
    let out = mview_impl(toks);
    assert_eq!(out.code, "()");
    let d = out.diag.expect("expected a diagnostic");
    assert_eq!(d.msg, "this attribute is not supported on components");
    assert_eq!(d.at, 1);
}

#[test]
fn style_directive_accepted_on_html_element() {
    // div style:color="red";
    let toks = vec![
        ident("div"),
        ident("style"),
        punct_joined(':'),
        ident_joined("color"),
        punct_joined('='),
        lit_str("red"),
        punct_joined(';'),
    ];
    let out = mview_impl(toks);
    assert!(out.diag.is_none());
    assert_eq!(out.code, "{ div().style(\"color\", \"red\") }");
}

#[test]
fn clone_directive_rejected_on_html_element() {
    let toks = vec![
        ident("div"),
        ident("clone"),
        punct_joined(':'),
        ident_joined("data"),
        punct_joined(';'),
    ];
    let out = mview_impl(toks);
    assert_eq!(out.code, "()");
    let d = out.diag.expect("expected a diagnostic");
    assert_eq!(d.msg, "the clone directive is only supported on components");
}

#[test]
fn clone_directive_becomes_let_in_children_closure() {
    // Comp clone:data { "hi" }
    let toks = vec![
        ident("Comp"),
        ident("clone"),
        punct_joined(':'),
        ident_joined("data"),
        open(Delim::Brace),
        lit_str("hi"),
        close(Delim::Brace),
    ];
    let out = mview_impl(toks);
    assert!(out.diag.is_none());
    assert_eq!(out.code, "{ Comp().children(move || { let data = data.clone(); \"hi\" }) }");
}

#[test]
fn closure_params_wrap_children() {
    // Comp |a, b| { "x" }
    let toks = vec![
        ident("Comp"),
        punct('|'),
        ident_joined("a"),
        punct_joined(','),
        ident("b"),
        punct_joined('|'),
        open(Delim::Brace),
        lit_str("x"),
        close(Delim::Brace),
    ];
    let out = mview_impl(toks);
    assert!(out.diag.is_none());
    assert_eq!(out.code, "{ Comp().children(move |a, b| { \"x\" }) }");
}

#[test]
fn spread_attribute_on_html_element() {
    // div {..props};
    let toks = vec![
        ident("div"),
        open(Delim::Brace),
        Token::DotDot,
        ident_joined("props"),
        close(Delim::Brace),
        punct_joined(';'),
    ];
    let out = mview_impl(toks);
    assert!(out.diag.is_none());
    assert_eq!(out.code, "{ div().attrs(props) }");
}

#[test]
fn spread_attaches_after_the_other_setters() {
    // div {..props} type="text";
    let toks = vec![
        ident("div"),
        open(Delim::Brace),
        Token::DotDot,
        ident_joined("props"),
        close(Delim::Brace),
        ident("type"),
        punct_joined('='),
        lit_str("text"),
        punct_joined(';'),
    ];
    let out = mview_impl(toks);
    assert!(out.diag.is_none());
    assert_eq!(out.code, "{ div().attr(\"type\", \"text\").attrs(props) }");
}

#[test]
fn spread_attribute_rejected_on_component() {
    let toks = vec![
        ident("Comp"),
        open(Delim::Brace),
        Token::DotDot,
        ident_joined("props"),
        close(Delim::Brace),
        punct_joined(';'),
    ];
    let out = mview_impl(toks);
    assert_eq!(out.code, "()");
    let d = out.diag.expect("expected a diagnostic");
    assert_eq!(d.msg, "this attribute is not supported on components");
}

#[test]
fn generics_emit_a_turbofish() {
    // GenericComponent<String> ty={t};
    let toks = vec![
        ident("GenericComponent"),
        punct_joined('<'),
        ident_joined("String"),
        punct_joined('>'),
        ident("ty"),
        punct_joined('='),
        open(Delim::Brace),
        ident_joined("t"),
        close(Delim::Brace),
        punct_joined(';'),
    ];
    let out = mview_impl(toks);
    assert!(out.diag.is_none());
    assert_eq!(out.code, "{ GenericComponent::<String>().ty({ t }) }");
}

#[test]
fn spaced_hash_sets_the_id() {
    // nav #primary { "x" }
    let toks = vec![
        ident("nav"),
        punct('#'),
        ident_joined("primary"),
        open(Delim::Brace),
        lit_str("x"),
        close(Delim::Brace),
    ];
    let out = mview_impl(toks);
    assert!(out.diag.is_none());
    assert_eq!(out.code, "{ nav().id(\"primary\").child(\"x\") }");
}

#[test]
fn repeated_id_keeps_the_last_one() {
    // nav #first #second;
    let toks = vec![
        ident("nav"),
        punct('#'),
        ident_joined("first"),
        punct('#'),
        ident_joined("second"),
        punct_joined(';'),
    ];
    let out = mview_impl(toks);
    assert!(out.diag.is_none());
    assert_eq!(out.code, "{ nav().id(\"second\") }");
}

#[test]
fn kebab_attr_snake_cases_on_components() {
    // Something some-attribute=5;
    let toks = vec![
        ident("Something"),
        ident("some"),
        punct_joined('-'),
        ident_joined("attribute"),
        punct_joined('='),
        lit_int("5"),
        punct_joined(';'),
    ];
    let out = mview_impl(toks);
    assert!(out.diag.is_none());
    assert_eq!(out.code, "{ Something().some_attribute(5) }");
}

#[test]
fn class_directive_with_string_literal_key() {
    // div class:"complex-[class]-name"={yes};
    let toks = vec![
        ident("div"),
        ident("class"),
        punct_joined(':'),
        lit_str("complex-[class]-name"),
        punct_joined('='),
        open(Delim::Brace),
        ident_joined("yes"),
        close(Delim::Brace),
        punct_joined(';'),
    ];
    let out = mview_impl(toks);
    assert!(out.diag.is_none());
    assert_eq!(out.code, "{ div().class(\"complex-[class]-name\", { yes }) }");
}

#[test]
fn use_directive_with_and_without_value() {
    let with = vec![
        ident("div"),
        ident("use"),
        punct_joined(':'),
        ident_joined("hook"),
        punct_joined('='),
        open(Delim::Brace),
        ident_joined("params"),
        close(Delim::Brace),
        punct_joined(';'),
    ];
    let out = mview_impl(with);
    assert!(out.diag.is_none());
    assert_eq!(out.code, "{ div().directive(hook, { params }) }");
    let without = vec![
        ident("div"),
        ident("use"),
        punct_joined(':'),
        ident_joined("hook"),
        punct_joined(';'),
    ];
    let out = mview_impl(without);
    assert!(out.diag.is_none());
    assert_eq!(out.code, "{ div().directive(hook, ()) }");
}

#[test]
fn top_level_slot_aborts() {
    // slot:Fallback; br;
    let toks = vec![
        ident("slot"),
        punct_joined(':'),
        ident_joined("Fallback"),
        punct_joined(';'),
        ident("br"),
        punct_joined(';'),
    ];
    let out = mview_impl(toks);
    assert_eq!(out.code, "()");
    let d = out.diag.expect("expected a diagnostic");
    assert_eq!(d.msg, "slots should be inside a parent that supports slots");
    assert_eq!(d.at, 0);
}

#[test]
fn committed_directive_without_key_aborts() {
    // div class:;
    let toks = vec![ident("div"), ident("class"), punct_joined(':'), punct_joined(';')];
    let out = mview_impl(toks);
    assert_eq!(out.code, "()");
    let d = out.diag.expect("expected a diagnostic");
    assert_eq!(d.msg, "expected a key and value after the directive");
    assert_eq!(d.at, 3);
}

#[test]
fn committed_clone_without_identifier_aborts() {
    // div clone:;
    let toks = vec![ident("div"), ident("clone"), punct_joined(':'), punct_joined(';')];
    let out = mview_impl(toks);
    assert_eq!(out.code, "()");
    let d = out.diag.expect("expected a diagnostic");
    assert_eq!(d.msg, "expected an identifier after the directive");
    assert_eq!(d.at, 3);
}

#[test]
fn prop_shorthand_on_html_element() {
    // input prop:{value};
    let toks = vec![
        ident("input"),
        ident("prop"),
        punct_joined(':'),
        open(Delim::Brace),
        ident_joined("value"),
        close(Delim::Brace),
        punct_joined(';'),
    ];
    let out = mview_impl(toks);
    assert!(out.diag.is_none());
    assert_eq!(out.code, "{ input().prop(\"value\", { value }) }");
}

#[test]
fn token_text_renders_punctuation() {
    let t = mview::token::token_text(&Token::Punct { ch: '.', spaced: false });
    assert_eq!(t, ".");
    let s = mview::token::token_text(&Token::LitStr { text: "hi".to_string() });
    assert_eq!(s, "\"hi\"");
}

#[test]
fn leftover_input_reports_invalid_child() {
    let toks = vec![punct_joined(';')];
    let out = mview_impl(toks);
    assert_eq!(out.code, "()");
    let d = out.diag.expect("expected a diagnostic");
    assert_eq!(d.msg, "invalid child");
    assert_eq!(d.at, 0);
}

#[test]
fn on_directive_and_event_handler_block() {
    // input on:change={handler} type="text";
    let toks = vec![
        ident("input"),
        ident("on"),
        punct_joined(':'),
        ident_joined("change"),
        punct_joined('='),
        open(Delim::Brace),
        ident_joined("handler"),
        close(Delim::Brace),
        ident("type"),
        punct_joined('='),
        lit_str("text"),
        punct_joined(';'),
    ];
    let out = mview_impl(toks);
    assert!(out.diag.is_none());
    assert_eq!(
        out.code,
        "{ input().on(\"change\", { handler }).attr(\"type\", \"text\") }"
    );
}

#[test]
fn parsing_is_idempotent_on_the_same_input() {
    let make = || {
        vec![
            ident("div"),
            punct_joined('.'),
            ident_joined("primary"),
            open(Delim::Brace),
            lit_str("hello"),
            close(Delim::Brace),
        ]
    };
    let a = mview_impl(make());
    let b = mview_impl(make());
    assert_eq!(a.code, b.code);
    assert!(a.diag.is_none() && b.diag.is_none());
}

#[test]
fn data_index_int_attr() {
    // input data-index=0;
    let toks = vec![
        ident("input"),
        ident("data"),
        punct_joined('-'),
        ident_joined("index"),
        punct_joined('='),
        lit_int("0"),
        punct_joined(';'),
    ];
    let out = mview_impl(toks);
    assert!(out.diag.is_none());
    assert_eq!(out.code, "{ input().attr(\"data-index\", 0) }");
}

#[test]
fn last_element_may_omit_terminator() {
    let toks = vec![ident("br"), punct_joined(';'), ident("footer")];
    let out = mview_impl(toks);
    assert!(out.diag.is_none());
    assert_eq!(out.code, "{ Fragment::new(vec![br().into_view(), footer().into_view()]) }");
}
