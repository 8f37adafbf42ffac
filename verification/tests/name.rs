use citeproc::name::Name;
use citeproc::style::{Affixes, Delimiter, DelimiterPrecedes, Formatting, NameAsSortOrder, NameForm};

#[test]
fn name_root_defaults() {
    let n = Name::root_default();
    assert_eq!(n.delimiter, Some(Delimiter(",".to_string())));
    assert_eq!(n.delimiter_precedes_et_al, Some(DelimiterPrecedes::Contextual));
    assert_eq!(n.delimiter_precedes_last, Some(DelimiterPrecedes::Contextual));
    assert_eq!(n.et_al_min, Some(0));
    assert_eq!(n.et_al_use_first, Some(1));
    assert_eq!(n.et_al_use_last, Some(false));
    assert_eq!(n.form, Some(NameForm::Long));
    assert_eq!(n.initialize, Some(true));
    assert_eq!(n.sort_separator, Some(", ".to_string()));
    assert_eq!(n.and, None);
    assert_eq!(n.name_as_sort_order, None);
    assert_eq!(n.formatting, None);
}

#[test]
fn name_merge_overrides_set_options() {
    let root = Name::root_default();
    let mut local = Name::default();
    local.et_al_min = Some(3);
    local.form = Some(NameForm::Short);
    local.name_as_sort_order = Some(NameAsSortOrder::All);
    local.formatting = Some(Formatting::italic());
    local.affixes = Affixes { prefix: "(".to_string(), suffix: String::new() };
    let m = root.merge(&local);
    assert_eq!(m.et_al_min, Some(3));
    assert_eq!(m.form, Some(NameForm::Short));
    assert_eq!(m.name_as_sort_order, Some(NameAsSortOrder::All));
    // inherited where the local definition says nothing
    assert_eq!(m.et_al_use_first, Some(1));
    assert_eq!(m.sort_separator, Some(", ".to_string()));
    // formatting and affixes are never inherited
    assert_eq!(m.formatting, Some(Formatting::italic()));
    assert_eq!(m.affixes.prefix, "(");
    let plain = local.merge(&Name::default());
    assert_eq!(plain.formatting, None);
    assert_eq!(plain.affixes.prefix, "");
    assert_eq!(plain.et_al_min, Some(3));
}

#[test]
fn name_merge_laws_on_values() {
    let root = Name::root_default();
    let mut b = Name::default();
    b.et_al_min = Some(5);
    let mut c = Name::default();
    c.initialize = Some(false);
    c.et_al_use_first = Some(2);
    // grouping does not matter
    assert_eq!(root.merge(&b).merge(&c), root.merge(&b.merge(&c)));
    // a definition merged with itself is itself
    assert_eq!(root.merge(&root), root);
    // under a parent that sets nothing, the local definition is the result
    assert_eq!(Name::default().merge(&c), c);
}
