use citeproc::date::Date;
use citeproc::disamb::{
    ambiguity_after_pass, built_cluster, ir_gen0, ir_gen1_add_names, ir_gen2_add_given_name, ir_gen3_add_year_suffix, ir_gen4_conditionals,
    is_unambiguous, ref_not_found, to_bijective_base_26, year_suffixes, DisambIndex, DisambPass, YearSuffixes,
};
use citeproc::ir::{token_eq, DisambToken, IrState, IR};
use citeproc::output::PlainText;
use citeproc::style::{Affixes, Citation, Delimiter, Formatting, GivenNameDisambiguationRule, Layout};

#[test]
fn bijective_base_26() {
    assert_eq!(to_bijective_base_26(0), "");
    assert_eq!(to_bijective_base_26(1), "a");
    assert_eq!(to_bijective_base_26(2), "b");
    assert_eq!(to_bijective_base_26(26), "z");
    assert_eq!(to_bijective_base_26(27), "aa");
    assert_eq!(to_bijective_base_26(52), "az");
    assert_eq!(to_bijective_base_26(53), "ba");
    assert_eq!(to_bijective_base_26(702), "zz");
    assert_eq!(to_bijective_base_26(703), "aaa");
}

fn cites(list: &[(&str, bool)]) -> Vec<(String, bool)> {
    list.iter().map(|(r, u)| (r.to_string(), *u)).collect()
}

#[test]
fn year_suffixes_in_first_ambiguous_order() {
    let c = cites(&[("doe", false), ("roe", true), ("smith", false), ("doe", false), ("roe", false)]);
    let ys = year_suffixes(true, &c);
    assert_eq!(ys.len(), 3);
    assert_eq!(ys.get("doe"), Some(1));
    assert_eq!(ys.get("smith"), Some(2));
    assert_eq!(ys.get("roe"), Some(3));
    assert_eq!(ys.get("nobody"), None);
    assert_eq!(ys.owner("b").map(|s| s.as_str()), Some("smith"));
    assert_eq!(ys.owner("d"), None);
}

#[test]
fn year_suffixes_off() {
    let c = cites(&[("doe", false)]);
    let ys = year_suffixes(false, &c);
    assert_eq!(ys.len(), 0);
    assert_eq!(ys.get("doe"), None);
    assert_eq!(YearSuffixes::new().len(), 0);
}

fn tok(s: &str) -> DisambToken {
    DisambToken::Str(s.to_string())
}

fn index() -> DisambIndex {
    DisambIndex {
        entries: vec![
            (tok("Doe"), vec!["doe1".to_string(), "doe2".to_string()]),
            (tok("1999"), vec!["doe1".to_string(), "smith".to_string()]),
            (tok("2001"), vec!["doe2".to_string()]),
        ],
    }
}

fn state(tokens: &[&str]) -> IrState {
    let mut s = IrState::new();
    for t in tokens {
        s.insert(tok(t));
    }
    s
}

#[test]
fn unambiguous_cites() {
    let ix = index();
    // two references carry "Doe"
    assert!(!is_unambiguous(&ix, None, &state(&["Doe"])));
    // "Doe" and "1999" leave only doe1
    assert!(is_unambiguous(&ix, None, &state(&["Doe", "1999"])));
    // tokens matching no reference are part of the style
    assert!(is_unambiguous(&ix, None, &state(&["ibid"])));
    assert!(is_unambiguous(&ix, None, &state(&["Doe", "2001", "p."])));
    // no reference carries both: nothing left
    assert!(is_unambiguous(&ix, None, &state(&["2001", "1999"])));
    assert!(is_unambiguous(&ix, None, &IrState::new()));
}

#[test]
fn year_suffix_token_picks_one_reference() {
    let ix = index();
    let ys = year_suffixes(true, &cites(&[("doe1", false), ("doe2", false)]));
    assert!(!is_unambiguous(&ix, Some(&ys), &state(&["Doe"])));
    // "b" is doe2's suffix
    assert!(is_unambiguous(&ix, Some(&ys), &state(&["Doe", "b"])));
    // a date token goes through the index like any other
    let mut s = state(&["Doe"]);
    s.insert(DisambToken::Date(Date { year: 1999, month: 0, day: 0 }));
    assert!(!is_unambiguous(&ix, Some(&ys), &s));
}

#[test]
fn index_lookup_first_entry() {
    let mut ix = index();
    ix.entries.push((tok("Doe"), vec![]));
    assert_eq!(ix.get(&tok("Doe")).map(|v| v.len()), Some(2));
    assert_eq!(ix.get(&tok("absent")), None);
    assert!(token_eq(&tok("a"), &tok("a")));
    assert!(!token_eq(&tok("a"), &DisambToken::Date(Date { year: 0, month: 0, day: 0 })));
}

fn citation(names: bool, given: bool, suffix: bool) -> Citation {
    let mut c = Citation::default();
    c.disambiguate_add_names = names;
    c.disambiguate_add_givenname = given;
    c.disambiguate_add_year_suffix = suffix;
    c.givenname_disambiguation_rule = GivenNameDisambiguationRule::ByCite;
    c
}

#[test]
fn disambiguation_passes() {
    let all = citation(true, true, true);
    let none = citation(false, false, false);
    assert_eq!(ir_gen1_add_names(false, &all), Some(DisambPass::AddNames));
    assert_eq!(ir_gen1_add_names(true, &all), None);
    assert_eq!(ir_gen1_add_names(false, &none), None);
    assert_eq!(
        ir_gen2_add_given_name(false, &all),
        Some(DisambPass::AddGivenName(GivenNameDisambiguationRule::ByCite))
    );
    assert_eq!(ir_gen2_add_given_name(false, &none), None);
    let ys = year_suffixes(true, &cites(&[("doe1", false), ("doe2", false)]));
    assert_eq!(ir_gen3_add_year_suffix(false, &all, &ys, "doe2"), Some(DisambPass::AddYearSuffix(2)));
    assert_eq!(ir_gen3_add_year_suffix(false, &all, &ys, "smith"), None);
    assert_eq!(ir_gen3_add_year_suffix(true, &all, &ys, "doe1"), None);
    assert_eq!(ir_gen3_add_year_suffix(false, &none, &ys, "doe1"), None);
    assert_eq!(ir_gen4_conditionals(false), Some(DisambPass::Conditionals));
    assert_eq!(ir_gen4_conditionals(true), None);
}

#[test]
fn missing_reference_renders_question_marks() {
    let f = PlainText::new();
    let (ir, un, st) = ref_not_found(&f);
    assert!(matches!(ir, IR::Rendered(Some(ref s)) if s == "???"));
    assert!(un);
    assert_eq!(st.tokens.len(), 0);
}

#[test]
fn cluster_is_grouped_and_affixed() {
    let f = PlainText::new();
    let layout = Layout {
        affixes: Affixes { prefix: "(".to_string(), suffix: ")".to_string() },
        formatting: Some(Formatting::default()),
        delimiter: Delimiter("; ".to_string()),
        elements: vec![],
        locale: vec![],
    };
    let out = built_cluster(&f, vec![Some("Doe 1999".to_string()), None, Some("Roe 2001".to_string())], &layout);
    assert_eq!(out, "(Doe 1999; ; Roe 2001)");
    let empty = built_cluster(&f, vec![], &layout);
    assert_eq!(empty, "()");
}

#[test]
fn first_rendering_of_a_cite() {
    let f = PlainText::new();
    let ix = index();
    let (ir, un, st) = ir_gen0(&f, &ix, None);
    assert!(matches!(ir, IR::Rendered(Some(ref s)) if s == "???"));
    assert!(un);
    assert_eq!(st.tokens.len(), 0);
    let (ir2, un2, st2) = ir_gen0(&f, &ix, Some((IR::Rendered(Some("Doe".to_string())), state(&["Doe"]))));
    assert!(matches!(ir2, IR::Rendered(Some(ref s)) if s == "Doe"));
    assert!(!un2);
    assert_eq!(st2.tokens.len(), 1);
    let (_, un3, _) = ir_gen0(&f, &ix, Some((IR::Rendered(None), state(&["Doe", "2001"]))));
    assert!(un3);
}

#[test]
fn ambiguity_after_each_pass() {
    let ix = index();
    let ys = year_suffixes(true, &cites(&[("doe1", false), ("doe2", false)]));
    let st = state(&["Doe", "b"]);
    // only the year-suffix pass reads "b" as doe2's suffix
    assert!(ambiguity_after_pass(&ix, &ys, DisambPass::AddYearSuffix(2), &st));
    assert!(!ambiguity_after_pass(&ix, &ys, DisambPass::AddNames, &st));
    assert!(!ambiguity_after_pass(
        &ix,
        &ys,
        DisambPass::AddGivenName(GivenNameDisambiguationRule::ByCite),
        &st
    ));
    assert!(!ambiguity_after_pass(&ix, &ys, DisambPass::Conditionals, &st));
    assert!(ambiguity_after_pass(&ix, &ys, DisambPass::Conditionals, &state(&["Doe", "1999"])));
}
