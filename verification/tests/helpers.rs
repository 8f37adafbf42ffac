use citeproc::helpers::{convert_numeric, sequence};
use citeproc::ir::IR;
use citeproc::output::PlainText;
use citeproc::style::Formatting;

#[test]
fn numeric_content_examples() {
    assert_eq!(convert_numeric("2nd"), Ok(0));
    assert_eq!(convert_numeric("second"), Err("second"));
    assert_eq!(convert_numeric("2nd edition"), Err("2nd edition"));
}

#[test]
fn numeric_content_affixes_and_separators() {
    assert_eq!(convert_numeric("D2"), Ok(0));
    assert_eq!(convert_numeric("2b"), Ok(0));
    assert_eq!(convert_numeric("L2d"), Ok(0));
    assert_eq!(convert_numeric("2, 3"), Ok(0));
    assert_eq!(convert_numeric("12-14"), Ok(0));
    assert_eq!(convert_numeric("2 & 4"), Ok(0));
    assert_eq!(convert_numeric("2 ,3"), Ok(0));
    assert_eq!(convert_numeric("0"), Ok(0));
}

#[test]
fn numeric_content_rejects() {
    assert_eq!(convert_numeric(""), Err(""));
    assert_eq!(convert_numeric("2-"), Err("2-"));
    assert_eq!(convert_numeric("2 3"), Err("2 3"));
    assert_eq!(convert_numeric("-2"), Err("-2"));
    assert_eq!(convert_numeric("2.5"), Err("2.5"));
    assert_eq!(convert_numeric("ab"), Err("ab"));
}

#[test]
fn numeric_content_of_any_size() {
    assert_eq!(convert_numeric("3000000000"), Ok(0));
    assert_eq!(convert_numeric("99999999999999999999-1"), Ok(0));
}

fn r(s: &str) -> IR<String> {
    IR::Rendered(Some(s.to_string()))
}

fn seq_of(irs: Vec<IR<String>>) -> IR<String> {
    IR::Sequence(irs)
}

fn text_of(ir: &IR<String>) -> Option<&str> {
    match ir {
        IR::Rendered(Some(s)) => Some(s.as_str()),
        _ => None,
    }
}

#[test]
fn sequence_joins_rendered_runs() {
    let f = PlainText::new();
    let out = sequence(&f, &Formatting::default(), ", ", vec![r("a"), IR::Rendered(None), r("b"), r("c")]);
    assert_eq!(text_of(&out), Some("a, b, c"));
}

#[test]
fn sequence_of_nothing() {
    let f = PlainText::new();
    let out = sequence(&f, &Formatting::default(), ", ", vec![]);
    assert!(matches!(out, IR::Rendered(None)));
    let out2 = sequence(&f, &Formatting::default(), ", ", vec![IR::Rendered(None), IR::Rendered(None)]);
    assert!(matches!(out2, IR::Rendered(None)));
}

#[test]
fn sequence_keeps_unrendered_pieces() {
    let f = PlainText::new();
    let inner = seq_of(vec![r("x")]);
    let out = sequence(&f, &Formatting::default(), " ", vec![r("a"), r("b"), inner, r("c")]);
    match out {
        IR::Sequence(v) => {
            assert_eq!(v.len(), 3);
            assert_eq!(text_of(&v[0]), Some("a b"));
            assert!(matches!(&v[1], IR::Sequence(w) if w.len() == 1));
            assert_eq!(text_of(&v[2]), Some("c"));
        },
        _ => panic!("expected a sequence"),
    }
    // a single piece that is not rendered comes back as it is
    let only = sequence(&f, &Formatting::default(), " ", vec![IR::Rendered(None), seq_of(vec![])]);
    assert!(matches!(only, IR::Sequence(w) if w.is_empty()));
}
