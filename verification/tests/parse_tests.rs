use mview::attribute::{Attr, KebabIdentOrStr, KvAttr};
use mview::children::{Child, Children};
use mview::cursor::Cursor;
use mview::diag::Parsed;
use mview::ident::KebabIdent;
use mview::token::{Delim, Token};
use mview::value::{Lit, Value};

fn ident(name: &str) -> Token {
    Token::Ident { name: name.to_string(), spaced: true }
}

fn ident_joined(name: &str) -> Token {
    Token::Ident { name: name.to_string(), spaced: false }
}

fn punct_joined(ch: char) -> Token {
    Token::Punct { ch, spaced: false }
}

fn lit_str(text: &str) -> Token {
    Token::LitStr { text: text.to_string() }
}

fn open(delim: Delim) -> Token {
    Token::Open { delim }
}

fn close(delim: Delim) -> Token {
    Token::Close { delim }
}

fn kebab(segs: &[&str]) -> KebabIdent {
    KebabIdent::new(segs.iter().map(|s| s.to_string()).collect())
}

#[test]
fn failed_value_leaves_cursor_untouched() {
    let mut c = Cursor::new(vec![punct_joined(';')]);
    assert!(matches!(c.parse_value(), Parsed::Fail));
    assert_eq!(c.pos, 0);
}

#[test]
fn failed_kebab_leaves_cursor_untouched() {
    let mut c = Cursor::new(vec![lit_str("nope")]);
    assert!(matches!(c.parse_kebab(), Parsed::Fail));
    assert_eq!(c.pos, 0);
}

#[test]
fn failed_attribute_leaves_cursor_untouched() {
    let mut c = Cursor::new(vec![punct_joined('=')]);
    assert!(matches!(c.parse_attribute(), Parsed::Fail));
    assert_eq!(c.pos, 0);
}

#[test]
fn failed_selector_leaves_cursor_untouched() {
    let mut c = Cursor::new(vec![punct_joined('.')]);
    assert!(matches!(c.parse_selector(), Parsed::Fail));
    assert_eq!(c.pos, 0);
}

#[test]
fn failed_element_leaves_cursor_untouched() {
    // a selector and attributes parse, but no valid terminator follows
    let toks = vec![ident("div"), punct_joined('='), punct_joined('=')];
    let n = toks.len();
    let mut c = Cursor::new(toks);
    assert!(matches!(c.parse_element(n), Parsed::Fail));
    assert_eq!(c.pos, 0);
}

#[test]
fn unbalanced_group_fails_without_advancing() {
    let mut c = Cursor::new(vec![open(Delim::Brace), ident("x")]);
    assert!(matches!(c.capture_group(Delim::Brace), Parsed::Fail));
    assert_eq!(c.pos, 0);
}

#[test]
fn kv_attr_accessors_round_trip() {
    let attr = KvAttr::new(kebab(&["data", "index"]), Value::Lit(Lit::Int("3".to_string())));
    assert_eq!(attr.key().to_lit_str(), "data-index");
    assert_eq!(attr.key().to_snake_string(), "data_index");
    assert!(matches!(attr.value(), Value::Lit(Lit::Int(d)) if d == "3"));
}

#[test]
fn children_len_iter_and_into_vec() {
    let kids = Children(vec![
        Child::Value(Value::Lit(Lit::Str("a".to_string()))),
        Child::Value(Value::Lit(Lit::Str("b".to_string()))),
    ]);
    assert_eq!(kids.len(), 2);
    assert_eq!(kids.iter().len(), 2);
    let v = kids.into_vec();
    assert!(matches!(&v[0], Child::Value(Value::Lit(Lit::Str(s))) if s == "a"));
    assert!(matches!(&v[1], Child::Value(Value::Lit(Lit::Str(s))) if s == "b"));
}

#[test]
fn kebab_ident_conversions() {
    let k = kebab(&["aria", "label"]);
    assert_eq!(k.to_lit_str(), "aria-label");
    assert_eq!(k.to_snake_string(), "aria_label");
    let single = KebabIdent::from_one("checked".to_string());
    assert_eq!(single.to_lit_str(), "checked");
}

#[test]
fn kebab_ident_or_str_into_lit_str() {
    let from_ident = KebabIdentOrStr::KebabIdent(kebab(&["data", "x"]));
    assert_eq!(from_ident.into_lit_str(), "data-x");
    let from_str = KebabIdentOrStr::Str("a b".to_string());
    assert_eq!(from_str.into_lit_str(), "a b");
}

#[test]
fn parse_braced_bool_accepts_shorthand() {
    // {class}
    let mut c = Cursor::new(vec![open(Delim::Brace), ident_joined("class"), close(Delim::Brace)]);
    match c.parse_braced_bool() {
        Parsed::Found((key, value)) => {
            assert_eq!(key.to_lit_str(), "class");
            match value {
                Value::Block(ts) => {
                    assert_eq!(ts.len(), 1);
                    assert!(matches!(&ts[0], Token::Ident { name, .. } if name == "class"));
                },
                other => panic!("expected a block value, got {:?}", other),
            }
        },
        other => panic!("expected a parse, got {:?}", other),
    }
    assert_eq!(c.pos, 3);
}

#[test]
fn parse_braced_bool_accepts_pairs() {
    // value={x}
    let mut c = Cursor::new(vec![
        ident("value"),
        punct_joined('='),
        open(Delim::Brace),
        ident_joined("x"),
        close(Delim::Brace),
    ]);
    match c.parse_braced_bool() {
        Parsed::Found((key, value)) => {
            assert_eq!(key.to_lit_str(), "value");
            assert!(matches!(value, Value::Block(_)));
        },
        other => panic!("expected a parse, got {:?}", other),
    }
    assert_eq!(c.pos, 5);
}

#[test]
fn parse_str_braced_accepts_string_keys() {
    // "a b"={x}
    let mut c = Cursor::new(vec![
        lit_str("a b"),
        punct_joined('='),
        open(Delim::Brace),
        ident_joined("x"),
        close(Delim::Brace),
    ]);
    match c.parse_str_braced() {
        Parsed::Found((key, _value)) => {
            assert_eq!(key.into_lit_str(), "a b");
        },
        other => panic!("expected a parse, got {:?}", other),
    }
}

#[test]
fn parse_ident_braced_rejects_kebab_keys() {
    // {aria-label} holds more than one plain identifier
    let mut c = Cursor::new(vec![
        open(Delim::Brace),
        ident_joined("aria"),
        punct_joined('-'),
        ident_joined("label"),
        close(Delim::Brace),
    ]);
    assert!(matches!(c.parse_ident_braced(), Parsed::Fail));
    assert_eq!(c.pos, 0);
}

#[test]
fn bare_kebab_ident_parses_as_boolean_attr() {
    let mut c = Cursor::new(vec![ident("checked"), punct_joined(';')]);
    match c.parse_attribute() {
        Parsed::Found(Attr::Bool(k)) => assert_eq!(k.to_lit_str(), "checked"),
        other => panic!("expected a boolean attribute, got {:?}", other),
    }
    assert_eq!(c.pos, 1);
}

#[test]
fn directive_value_failure_aborts() {
    // div use:hook=;
    let toks = vec![
        ident("div"),
        ident("use"),
        punct_joined(':'),
        ident_joined("hook"),
        punct_joined('='),
        punct_joined(';'),
    ];
    let out = mview::mview_impl(toks);
    assert_eq!(out.code, "()");
    let d = out.diag.expect("expected a diagnostic");
    assert_eq!(d.msg, "expected a value after `=`");
}
