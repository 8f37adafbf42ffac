use citeproc::style::{
    Affixes, Citation, Condition, FontStyle, FontVariant, FontWeight, Formatting, Match, Position,
    RangeDelimiter, Style, StyleClass, TextDecoration, VerticalAlignment, DemoteNonDroppingParticle,
};
use citeproc::lang::Lang;
use citeproc::style::{Delimiter, Element, Group, TextCase, TextSource};
use citeproc::variables::{AnyVariable, Variable};

#[test]
fn formatting_bold_and_italic() {
    let b = Formatting::bold();
    assert_eq!(b.font_weight, FontWeight::Bold);
    assert_eq!(b.font_style, FontStyle::Normal);
    let i = Formatting::italic();
    assert_eq!(i.font_style, FontStyle::Italic);
    assert_eq!(i.font_weight, FontWeight::Normal);
    assert_eq!(i.text_decoration, TextDecoration::NoDecoration);
    assert_eq!(i.vertical_alignment, VerticalAlignment::Baseline);
    assert_eq!(i.font_variant, FontVariant::Normal);
}

#[test]
fn formatting_debug_text() {
    assert_eq!(Formatting::default().debug_string(), "Formatting { }");
    assert_eq!(Formatting::italic().debug_string(), "Formatting { font_style: Italic, }");
    let f = Formatting {
        font_style: FontStyle::Oblique,
        font_variant: FontVariant::SmallCaps,
        font_weight: FontWeight::Light,
        vertical_alignment: VerticalAlignment::Superscript,
        text_decoration: TextDecoration::Underline,
    };
    assert_eq!(
        f.debug_string(),
        "Formatting { font_style: Oblique, font_variant: SmallCaps, font_weight: Light, \
         text_decoration: Underline, vertical_alignment: Superscript, }"
    );
}

#[test]
fn affixes_debug_text() {
    assert_eq!(Affixes::default().debug_string(), "Affixes { }");
    let a = Affixes { prefix: "(".to_string(), suffix: String::new() };
    assert_eq!(a.debug_string(), "Affixes { prefix: Atom('(' type=inline), }");
    let b = Affixes { prefix: String::new(), suffix: "a long suffix".to_string() };
    assert_eq!(b.debug_string(), "Affixes { suffix: Atom('a long suffix' type=dynamic), }");
}

#[test]
fn position_matches_implications() {
    assert!(Position::IbidWithLocator.matches(Position::Ibid));
    assert!(Position::IbidWithLocator.matches(Position::Subsequent));
    assert!(Position::Ibid.matches(Position::Subsequent));
    assert!(Position::Subsequent.matches(Position::Subsequent));
    assert!(Position::First.matches(Position::First));
    assert!(!Position::First.matches(Position::Subsequent));
    assert!(!Position::Subsequent.matches(Position::Ibid));
    assert!(!Position::Ibid.matches(Position::IbidWithLocator));
}

fn empty_condition() -> Condition {
    Condition {
        match_type: Match::All,
        disambiguate: None,
        is_numeric: vec![],
        variable: vec![],
        position: vec![],
        csl_type: vec![],
        locator: vec![],
        is_uncertain_date: vec![],
        jurisdiction: None,
        subjurisdictions: None,
        has_year_only: vec![],
        has_day: vec![],
        has_month_or_season: vec![],
        context: None,
        is_plural: vec![],
    }
}

#[test]
fn condition_emptiness() {
    assert!(empty_condition().is_empty());
    let mut any = empty_condition();
    any.match_type = Match::Any;
    assert!(any.is_empty());
    let mut some = empty_condition();
    some.variable = vec![AnyVariable::Ordinary(Variable::Title)];
    assert!(!some.is_empty());
    let mut dis = empty_condition();
    dis.disambiguate = Some(false);
    assert!(!dis.is_empty());
    let mut pos = empty_condition();
    pos.position = vec![Position::First];
    assert!(!pos.is_empty());
}

#[test]
fn range_delimiter_default_is_en_dash() {
    let d = RangeDelimiter::default();
    assert_eq!(d.as_ref(), "\u{2013}");
    assert_eq!(RangeDelimiter::from_str("-").unwrap().as_ref(), "-");
}

#[test]
fn citation_defaults() {
    let c = Citation::default();
    assert!(!c.disambiguate_add_names);
    assert!(!c.disambiguate_add_givenname);
    assert!(!c.disambiguate_add_year_suffix);
    assert_eq!(c.layout.delimiter.0, "");
}

#[test]
fn style_defaults() {
    let s = Style::default();
    assert_eq!(s.class, StyleClass::Note);
    assert!(s.macros.is_empty());
    assert!(s.bibliography.is_none());
    assert!(s.locale_overrides.is_empty());
    assert_eq!(s.default_locale, Lang::en_us());
    assert_eq!(s.page_range_format, None);
    assert_eq!(s.demote_non_dropping_particle, DemoteNonDroppingParticle::DisplayAndSort);
    assert!(s.initialize_with_hyphen);
    assert!(s.names_delimiter.is_none());
    assert!(!s.citation.disambiguate_add_year_suffix);
}

#[test]
fn style_tree_clones_equal() {
    let inner = Element::Text(
        TextSource::Value("x".to_string()),
        None,
        Affixes::default(),
        false,
        false,
        TextCase::NoCase,
        None,
    );
    let g = Group {
        formatting: Some(Formatting::bold()),
        delimiter: Delimiter(", ".to_string()),
        affixes: Affixes::default(),
        elements: vec![inner.clone(), Element::Group(Group {
            formatting: None,
            delimiter: Delimiter::default(),
            affixes: Affixes::default(),
            elements: vec![inner],
            display: None,
            is_parallel: false,
        })],
        display: None,
        is_parallel: true,
    };
    let e = Element::Group(g);
    assert_eq!(e.clone(), e);
    let s = Style::default();
    assert_eq!(s.clone(), s);
}
