use xrune::fmt_expr::token_string;
use xrune::grammar::DsError;
use xrune::lex::lex;
use xrune::xwrapup::{Widget, XwStop};

fn widget(src: &str) -> Result<Widget, DsError> {
    Widget::parse(&lex(src).unwrap())
}

#[test]
fn xwrapup_parents_follow_nesting() {
    let w = widget("Root (w: 1) { Child (h: 2) {} if (flag) { Inner {} } }").unwrap();
    let names: Vec<String> = w.children.iter().map(|c| c.name.iter().collect()).collect();
    assert_eq!(names, vec!["Child", "Inner"]);
    let parents: Vec<String> = w.children.iter().map(|c| c.parent.iter().collect()).collect();
    assert_eq!(parents, vec!["Root", "screen"]);
    assert_eq!(w.parent.iter().collect::<String>(), "screen");
}

#[test]
fn xwrapup_code_creates_under_parent() {
    let w = widget("Root (w: 1) { Child (h: 2) {} if (flag) { Inner {} } }").unwrap();
    let out = token_string(&w.to_tokens());
    assert!(out.contains("\"let {} = obj::new({})\" , \"Root\" , \"screen\""), "got {out}");
    assert!(out.contains("\"{}.set_{}({:?})\" , \"Root\" , \"w\" , 1"), "got {out}");
    assert!(out.contains("\"Child\" , \"Root\""), "got {out}");
    assert!(out.contains("\"Inner\" , \"screen\""), "got {out}");
}

#[test]
fn xwrapup_attr_code() {
    let w = widget("Root (w: a + 1) {}").unwrap();
    let out = token_string(&w.attrs[0].to_tokens());
    assert!(out.contains("\"setAttribute({}, {})\" , \"w\" , stringify ! (a + 1)"), "got {out}");
}

#[test]
fn xwrapup_refusals() {
    assert_eq!(widget("Root (w 1) {}").unwrap_err(), DsError::Expected);
    assert_eq!(widget("Root (w: 1)").unwrap_err(), DsError::Expected);
    assert_eq!(widget("Root {} Extra {}").unwrap_err(), DsError::Unexpected);
    assert_eq!(widget("Root (w: ) {}").unwrap_err(), DsError::Rust);
}

#[test]
fn xwrapup_stalled_body_is_told_apart() {
    let toks = lex("Root { 1 }").unwrap();
    assert_eq!(Widget::try_parse(&toks).unwrap_err(), XwStop::Stalled);
    let toks = lex("Root { Child {} if (c) { 2 } }").unwrap();
    assert_eq!(Widget::try_parse(&toks).unwrap_err(), XwStop::Refused(DsError::Expected));
}
