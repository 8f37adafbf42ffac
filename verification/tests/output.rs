use citeproc::output::{affixed, affixed_text, or_default_formatting, Output, OutputFormat, PlainText};
use citeproc::style::{Affixes, Formatting};

#[test]
fn plain() {
    let f = PlainText::new();
    let o = f.text_node("hi", &Formatting::italic());
    let o2 = f.text_node("mom", &Formatting::default());
    let o3 = f.group(&[o, o2], " ", &Formatting::italic());
    let serialized = serde_json::to_string(&o3).unwrap();
    assert_eq!(serialized, "\"hi mom\"");
}

#[test]
fn plain_group_joins_with_delimiter() {
    let f = PlainText::new();
    let nodes = vec!["a".to_string(), "b".to_string(), "c".to_string()];
    assert_eq!(f.group(&nodes, ", ", &Formatting::default()), "a, b, c");
    assert_eq!(f.group(&[], ", ", &Formatting::default()), "");
    assert_eq!(f.group(&["only".to_string()], ", ", &Formatting::bold()), "only");
    assert_eq!(f.plain("x"), "x");
    assert_eq!(f.output("done".to_string()), "done");
}

#[test]
fn affixes_surround_a_node() {
    let f = PlainText::new();
    let both = Affixes { prefix: "(".to_string(), suffix: ")".to_string() };
    assert_eq!(affixed(&f, "x".to_string(), &both), "(x)");
    let pre = Affixes { prefix: "[".to_string(), suffix: String::new() };
    assert_eq!(affixed(&f, "y".to_string(), &pre), "[y");
    assert_eq!(affixed(&f, "z".to_string(), &Affixes::default()), "z");
    assert_eq!(affixed_text(&f, "w", None, &both), "(w)");
}

#[test]
fn missing_formatting_is_default() {
    assert_eq!(or_default_formatting(None), Formatting::default());
    assert_eq!(or_default_formatting(Some(Formatting::bold())), Formatting::bold());
}

#[test]
fn output_holds_its_parts() {
    let o: Output<String> = Output {
        citations: vec!["a".to_string()],
        bibliography: vec![],
        citation_ids: vec!["c1".to_string()],
    };
    assert_eq!(o.citations.len(), 1);
    assert_eq!(o.citation_ids[0], "c1");
}
