use citeproc::date::{
    body_date_intermediate, dp_fold, dp_matches, dp_render, dp_render_text, independent_date_intermediate,
    localized_date_intermediate, mask, mask_range, Date, DateOrRange,
};
use citeproc::ir::{DisambToken, GroupVars, IrState, IR};
use citeproc::locale::{Locale, LocaleDate, MonthTermEntry};
use citeproc::output::PlainText;
use citeproc::style::{
    Affixes, BodyDate, DateForm, DatePart, DatePartForm, DateParts, DayForm, Delimiter, Formatting,
    IndependentDate, LocalizedDate, MonthForm, RangeDelimiter, TextCase, YearForm,
};
use citeproc::terms::TermForm;
use citeproc::variables::DateVariable;

fn no_locale() -> Locale {
    Locale { month_terms: vec![], dates: vec![] }
}

fn part(form: DatePartForm) -> DatePart {
    DatePart {
        form,
        affixes: Affixes::default(),
        formatting: None,
        text_case: TextCase::NoCase,
        range_delimiter: RangeDelimiter::default(),
    }
}

fn text(form: DatePartForm, d: Date) -> Option<String> {
    dp_render_text(form, &d, &no_locale())
}

fn date(year: i32, month: u32, day: u32) -> Date {
    Date { year, month, day }
}

#[test]
fn date_part_years() {
    let d = date(2019, 3, 7);
    assert_eq!(text(DatePartForm::Year(YearForm::Long), d), Some("2019".to_string()));
    assert_eq!(text(DatePartForm::Year(YearForm::Short), d), Some("19".to_string()));
    assert_eq!(text(DatePartForm::Year(YearForm::Short), date(2005, 0, 0)), Some("05".to_string()));
    assert_eq!(text(DatePartForm::Year(YearForm::Short), date(-2019, 0, 0)), Some("-19".to_string()));
    assert_eq!(text(DatePartForm::Year(YearForm::Long), date(-44, 0, 0)), Some("-44".to_string()));
    assert_eq!(text(DatePartForm::Year(YearForm::Short), date(-5, 0, 0)), Some("-5".to_string()));
}

#[test]
fn date_part_months() {
    let d = date(2019, 3, 7);
    assert_eq!(text(DatePartForm::Month(MonthForm::Numeric, false), d), Some("3".to_string()));
    assert_eq!(text(DatePartForm::Month(MonthForm::NumericLeadingZeros, false), d), Some("03".to_string()));
    assert_eq!(text(DatePartForm::Month(MonthForm::Short, false), date(2019, 1, 1)), Some("Jan".to_string()));
    assert_eq!(text(DatePartForm::Month(MonthForm::Long, false), date(2019, 9, 1)), Some("September".to_string()));
    assert_eq!(text(DatePartForm::Month(MonthForm::Long, false), date(2019, 12, 1)), Some("December".to_string()));
    // no month, or no such month
    assert_eq!(text(DatePartForm::Month(MonthForm::Long, false), date(2019, 0, 1)), None);
    assert_eq!(text(DatePartForm::Month(MonthForm::Numeric, false), date(2019, 13, 1)), None);
}

#[test]
fn date_part_month_from_locale_terms() {
    let locale = Locale {
        month_terms: vec![
            MonthTermEntry { month: 3, form: TermForm::Long, singular: "März".to_string() },
            MonthTermEntry { month: 3, form: TermForm::Long, singular: "Maerz".to_string() },
            MonthTermEntry { month: 3, form: TermForm::Short, singular: "Mrz.".to_string() },
        ],
        dates: vec![],
    };
    let d = date(2019, 3, 7);
    assert_eq!(
        dp_render_text(DatePartForm::Month(MonthForm::Long, false), &d, &locale),
        Some("März".to_string())
    );
    assert_eq!(
        dp_render_text(DatePartForm::Month(MonthForm::Short, false), &d, &locale),
        Some("Mrz.".to_string())
    );
    // a month the locale has no term for falls back to English
    assert_eq!(
        dp_render_text(DatePartForm::Month(MonthForm::Short, false), &date(2019, 4, 1), &locale),
        Some("Apr".to_string())
    );
    assert_eq!(locale.month_term(3, TermForm::Symbol), None);
}

#[test]
fn date_part_days() {
    let d = date(2019, 3, 7);
    assert_eq!(text(DatePartForm::Day(DayForm::Numeric), d), Some("7".to_string()));
    assert_eq!(text(DatePartForm::Day(DayForm::NumericLeadingZeros), d), Some("07".to_string()));
    assert_eq!(text(DatePartForm::Day(DayForm::Ordinal), date(2019, 3, 5)), Some("5ORD".to_string()));
    assert_eq!(text(DatePartForm::Day(DayForm::NumericLeadingZeros), date(2019, 3, 21)), Some("21".to_string()));
    assert_eq!(text(DatePartForm::Day(DayForm::Numeric), date(2019, 3, 0)), None);
}

#[test]
fn date_part_render_with_affixes() {
    let f = PlainText::new();
    let mut p = part(DatePartForm::Day(DayForm::Numeric));
    p.affixes = Affixes { prefix: "(".to_string(), suffix: ")".to_string() };
    p.formatting = Some(Formatting::bold());
    assert_eq!(dp_render(&f, &p, &no_locale(), &date(2000, 1, 9)), Some("(9)".to_string()));
    assert_eq!(dp_render(&f, &p, &no_locale(), &date(2000, 1, 0)), None);
}

#[test]
fn date_parts_mask() {
    let d = date(2019, 3, 7);
    let ym = vec![part(DatePartForm::Year(YearForm::Long)), part(DatePartForm::Month(MonthForm::Long, false))];
    assert_eq!(mask(d, &ym), date(2019, 3, 0));
    let day = vec![part(DatePartForm::Day(DayForm::Numeric))];
    assert_eq!(mask(d, &day), date(0, 0, 7));
    assert_eq!(mask(d, &[]), date(0, 0, 0));
    assert_eq!(dp_fold((false, false, false), DatePartForm::Month(MonthForm::Long, true)), (false, true, false));
}

#[test]
fn date_range_tokens() {
    let parts = vec![part(DatePartForm::Year(YearForm::Long))];
    let mut state = IrState::new();
    mask_range(&DateOrRange::Range(date(2001, 2, 3), date(2004, 5, 6)), &parts, &mut state);
    assert!(state.contains(&DisambToken::Date(date(2001, 0, 0))));
    assert!(state.contains(&DisambToken::Date(date(2004, 0, 0))));
    assert!(!state.contains(&DisambToken::Date(date(2001, 2, 3))));
    mask_range(&DateOrRange::Literal("circa 1900".to_string()), &parts, &mut state);
    assert!(state.contains(&DisambToken::Str("circa 1900".to_string())));
    assert_eq!(state.tokens.len(), 3);
    // a token seen twice is recorded once
    mask_range(&DateOrRange::Single(date(2001, 7, 7)), &parts, &mut state);
    assert_eq!(state.tokens.len(), 3);
}

#[test]
fn date_parts_selector() {
    let y = part(DatePartForm::Year(YearForm::Long));
    let m = part(DatePartForm::Month(MonthForm::Long, false));
    let d = part(DatePartForm::Day(DayForm::Numeric));
    assert!(dp_matches(&y, DateParts::Year));
    assert!(!dp_matches(&m, DateParts::Year));
    assert!(dp_matches(&m, DateParts::YearMonth));
    assert!(!dp_matches(&d, DateParts::YearMonth));
    assert!(dp_matches(&d, DateParts::YearMonthDay));
}

fn indep() -> IndependentDate {
    IndependentDate {
        variable: DateVariable::Issued,
        date_parts: vec![
            part(DatePartForm::Day(DayForm::Numeric)),
            part(DatePartForm::Month(MonthForm::Long, false)),
            part(DatePartForm::Year(YearForm::Long)),
        ],
        delimiter: Delimiter(" ".to_string()),
        affixes: Affixes { prefix: "[".to_string(), suffix: "]".to_string() },
        formatting: None,
        display: None,
        text_case: TextCase::NoCase,
    }
}

fn rendered(ir: &IR<String>) -> Option<String> {
    match ir {
        IR::Rendered(Some(s)) => Some(s.clone()),
        _ => None,
    }
}

#[test]
fn independent_date_renders() {
    let f = PlainText::new();
    let mut state = IrState::new();
    let v = DateOrRange::Single(date(1999, 8, 0));
    let (ir, gv) = independent_date_intermediate(&f, &indep(), Some(&v), &no_locale(), &mut state);
    assert_eq!(rendered(&ir), Some("[August 1999]".to_string()));
    assert_eq!(gv, GroupVars::Important);
    assert!(state.contains(&DisambToken::Date(date(1999, 8, 0))));

    let mut state2 = IrState::new();
    let (ir2, gv2) = independent_date_intermediate(&f, &indep(), None, &no_locale(), &mut state2);
    assert!(matches!(ir2, IR::Rendered(None)));
    assert_eq!(gv2, GroupVars::Missing);
    assert_eq!(state2.tokens.len(), 0);

    let lit = DateOrRange::Literal("n.d.".to_string());
    let (ir3, gv3) = independent_date_intermediate(&f, &indep(), Some(&lit), &no_locale(), &mut state2);
    assert!(matches!(ir3, IR::Rendered(None)));
    assert_eq!(gv3, GroupVars::Missing);
    assert!(state2.contains(&DisambToken::Str("n.d.".to_string())));
}

fn numeric_locale() -> Locale {
    Locale {
        month_terms: vec![],
        dates: vec![LocaleDate {
            form: DateForm::Numeric,
            date_parts: vec![
                part(DatePartForm::Year(YearForm::Long)),
                part(DatePartForm::Month(MonthForm::NumericLeadingZeros, false)),
                part(DatePartForm::Day(DayForm::NumericLeadingZeros)),
            ],
            delimiter: Delimiter("-".to_string()),
        }],
    }
}

fn localized(selector: DateParts) -> LocalizedDate {
    LocalizedDate {
        variable: DateVariable::Issued,
        parts_selector: selector,
        date_parts: vec![],
        form: DateForm::Numeric,
        affixes: Affixes::default(),
        formatting: None,
        display: None,
        text_case: TextCase::NoCase,
    }
}

#[test]
fn localized_date_renders() {
    let f = PlainText::new();
    let locale = numeric_locale();
    let v = DateOrRange::Single(date(2012, 4, 9));
    let mut state = IrState::new();
    let (ir, gv) = localized_date_intermediate(&f, &localized(DateParts::YearMonthDay), Some(&v), &locale, &mut state);
    assert_eq!(rendered(&ir), Some("2012-04-09".to_string()));
    assert_eq!(gv, GroupVars::Important);
    // the element names no date parts, so its token masks every part
    assert!(state.contains(&DisambToken::Date(date(0, 0, 0))));
    let (ir2, _) = localized_date_intermediate(&f, &localized(DateParts::YearMonth), Some(&v), &locale, &mut state);
    assert_eq!(rendered(&ir2), Some("2012-04".to_string()));
    let (ir3, _) = body_date_intermediate(&f, &BodyDate::Local(localized(DateParts::Year)), Some(&v), &locale, &mut state);
    assert_eq!(rendered(&ir3), Some("2012".to_string()));
    let (ir4, _) = body_date_intermediate(&f, &BodyDate::Indep(indep()), Some(&v), &locale, &mut state);
    assert_eq!(rendered(&ir4), Some("[9 April 2012]".to_string()));
}

#[test]
fn locale_date_first_of_form() {
    let mut locale = numeric_locale();
    locale.dates.push(LocaleDate { form: DateForm::Numeric, date_parts: vec![], delimiter: Delimiter::default() });
    assert_eq!(locale.date(DateForm::Numeric).unwrap().delimiter.0, "-");
    assert!(locale.date(DateForm::Text).is_none());
}

#[test]
fn single_or_first_date() {
    assert_eq!(DateOrRange::Range(date(1, 2, 3), date(4, 5, 6)).single_or_first(), Some(date(1, 2, 3)));
    assert_eq!(DateOrRange::Literal("x".to_string()).single_or_first(), None);
}

#[test]
fn group_vars_from_rendering() {
    assert_eq!(GroupVars::rendered_if(true), GroupVars::Important);
    assert_eq!(GroupVars::rendered_if(false), GroupVars::Missing);
}
