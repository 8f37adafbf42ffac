//! Rendering `<cs:date>`: which parts of a date show, and their text.
use vstd::prelude::*;
use crate::ir::{DisambToken, DisambTokenV, GroupVars, IrState, IR};
use crate::locale::{Locale, LocaleDate};
use crate::output::{affixed, affixed_spec, affixed_text, formatting_or_default, or_default_formatting, OutputFormat};
use crate::strings::{decimal, int_text, pad2, pad2_to_string, int_to_string, push_decimal};
use crate::style::{
    BodyDate, DatePart, DatePartForm, DateParts, DayForm, IndependentDate, LocalizedDate,
    MonthForm, YearForm,
};
use crate::terms::TermForm;

verus! {

/// A date; 0 in a month or day means that part is unknown.
#[derive(Debug, Copy, Clone, PartialEq, Eq, Structural)]
pub struct Date {
    pub year: i32,
    pub month: u32,
    pub day: u32,
}

/// The value of a date variable.
#[derive(Debug, Clone, PartialEq, Eq)]
pub enum DateOrRange {
    Single(Date),
    Range(Date, Date),
    Literal(String),
}

impl DateOrRange {
    /// The date, or the first date of a range; nothing for a literal.
    pub open spec fn single_or_first_spec(&self) -> Option<Date> {
        match self {
            DateOrRange::Single(d) => Some(*d),
            DateOrRange::Range(d, _) => Some(*d),
            DateOrRange::Literal(_) => None,
        }
    }

    /// The date, or the first date of a range; nothing for a literal.
    pub fn single_or_first(&self) -> (r: Option<Date>)
        ensures
            r == self.single_or_first_spec(),
    {
        match self {
            DateOrRange::Single(d) => Some(*d),
            DateOrRange::Range(d, _) => Some(*d),
            DateOrRange::Literal(_) => None,
        }
    }
}

/// The date a date variable's value renders: its single or first date.
pub open spec fn value_date(value: Option<&DateOrRange>) -> Option<Date> {
    match value {
        Some(v) => v.single_or_first_spec(),
        None => None,
    }
}

/// Which of year, month and day the date parts seen so far name.
pub type DatePartAcc = (bool, bool, bool);

/// Marks the part that `form` names.
pub open spec fn dp_fold_spec(a: DatePartAcc, form: DatePartForm) -> DatePartAcc {
    match form {
        DatePartForm::Year(..) => (true, a.1, a.2),
        DatePartForm::Month(..) => (a.0, true, a.2),
        DatePartForm::Day(..) => (a.0, a.1, true),
    }
}

/// Marks the part that `form` names.
pub fn dp_fold(a: DatePartAcc, form: DatePartForm) -> (r: DatePartAcc)
    ensures
        r == dp_fold_spec(a, form),
{
    let mut a = a;
    match form {
        DatePartForm::Year(..) => a.0 = true,
        DatePartForm::Month(..) => a.1 = true,
        DatePartForm::Day(..) => a.2 = true,
    }
    a
}

/// Some date part names the year.
pub open spec fn names_year(parts: Seq<DatePart>) -> bool {
    exists|i: int| 0 <= i < parts.len() && parts[i].form is Year
}

/// Some date part names the month.
pub open spec fn names_month(parts: Seq<DatePart>) -> bool {
    exists|i: int| 0 <= i < parts.len() && parts[i].form is Month
}

/// Some date part names the day.
pub open spec fn names_day(parts: Seq<DatePart>) -> bool {
    exists|i: int| 0 <= i < parts.len() && parts[i].form is Day
}

/// The date with every part that no date part names set to 0.
pub open spec fn mask_spec(d: Date, parts: Seq<DatePart>) -> Date {
    Date {
        year: if names_year(parts) { d.year } else { 0 },
        month: if names_month(parts) { d.month } else { 0 },
        day: if names_day(parts) { d.day } else { 0 },
    }
}

/// Masking twice by the same date parts is masking once.
pub proof fn lemma_mask_idempotent(d: Date, parts: Seq<DatePart>)
    ensures
        mask_spec(mask_spec(d, parts), parts) == mask_spec(d, parts),
{
}

/// Keeps the parts of a date that the date parts name, setting the others
/// to 0.
pub fn mask(d: Date, date_parts: &[DatePart]) -> (r: Date)
    ensures
        r == mask_spec(d, date_parts@),
{
    let mut a: DatePartAcc = (false, false, false);
    let mut i: usize = 0;
    while i < date_parts.len()
        invariant
            i <= date_parts@.len(),
            a.0 == names_year(date_parts@.subrange(0, i as int)),
            a.1 == names_month(date_parts@.subrange(0, i as int)),
            a.2 == names_day(date_parts@.subrange(0, i as int)),
        decreases date_parts.len() - i,
    {
        let ghost before = date_parts@.subrange(0, i as int);
        let ghost after = date_parts@.subrange(0, i + 1);
        assert(after == before.push(date_parts@[i as int]));
        a = dp_fold(a, date_parts[i].form);
        proof {
            if names_year(before) {
                let k = choose|k: int| 0 <= k < before.len() && before[k].form is Year;
                assert(after[k] == before[k]);
            }
            if names_month(before) {
                let k = choose|k: int| 0 <= k < before.len() && before[k].form is Month;
                assert(after[k] == before[k]);
            }
            if names_day(before) {
                let k = choose|k: int| 0 <= k < before.len() && before[k].form is Day;
                assert(after[k] == before[k]);
            }
            assert(after[i as int] == date_parts@[i as int]);
            if names_year(after) {
                let k = choose|k: int| 0 <= k < after.len() && after[k].form is Year;
                if k < i {
                    assert(before[k] == after[k]);
                }
            }
            if names_month(after) {
                let k = choose|k: int| 0 <= k < after.len() && after[k].form is Month;
                if k < i {
                    assert(before[k] == after[k]);
                }
            }
            if names_day(after) {
                let k = choose|k: int| 0 <= k < after.len() && after[k].form is Day;
                if k < i {
                    assert(before[k] == after[k]);
                }
            }
        }
        i = i + 1;
    }
    assert(date_parts@.subrange(0, date_parts@.len() as int) == date_parts@);
    Date {
        year: if a.0 { d.year } else { 0 },
        month: if a.1 { d.month } else { 0 },
        day: if a.2 { d.day } else { 0 },
    }
}

/// The tokens a date value adds: each date masked by the date parts, or
/// the literal's text.
pub open spec fn range_tokens(r: DateOrRange, parts: Seq<DatePart>) -> Set<DisambTokenV> {
    match r {
        DateOrRange::Single(d) => set![DisambTokenV::Date(mask_spec(d, parts))],
        DateOrRange::Range(d1, d2) => set![
            DisambTokenV::Date(mask_spec(d1, parts)),
            DisambTokenV::Date(mask_spec(d2, parts)),
        ],
        DateOrRange::Literal(s) => set![DisambTokenV::Str(s@)],
    }
}

/// Records the tokens that a date value contributes to disambiguation.
pub fn mask_range(r: &DateOrRange, date_parts: &[DatePart], state: &mut IrState)
    ensures
        final(state).token_set() == old(state).token_set() + range_tokens(*r, date_parts@),
{
    match r {
        DateOrRange::Single(d) => {
            state.insert(DisambToken::Date(mask(*d, date_parts)));
        },
        DateOrRange::Range(d1, d2) => {
            state.insert(DisambToken::Date(mask(*d1, date_parts)));
            state.insert(DisambToken::Date(mask(*d2, date_parts)));
        },
        DateOrRange::Literal(lit) => {
            state.insert(DisambToken::Str(lit.clone()));
        },
    }
    assert(final(state).token_set() =~= old(state).token_set() + range_tokens(*r, date_parts@));
}

/// Whether a locale's date part shows under the style's `date-parts`
/// selector: the year always, the month unless only the year is asked
/// for, the day only when all three are.
pub open spec fn dp_matches_spec(form: DatePartForm, selector: DateParts) -> bool {
    match form {
        DatePartForm::Day(_) => selector == DateParts::YearMonthDay,
        DatePartForm::Month(..) => selector != DateParts::Year,
        DatePartForm::Year(_) => true,
    }
}

/// Whether a locale's date part shows under the `date-parts` selector.
pub fn dp_matches(part: &DatePart, selector: DateParts) -> (r: bool)
    ensures
        r == dp_matches_spec(part.form, selector),
{
    match part.form {
        DatePartForm::Day(_) => selector == DateParts::YearMonthDay,
        DatePartForm::Month(..) => selector != DateParts::Year,
        DatePartForm::Year(_) => true,
    }
}

/// The English month abbreviations used where the locale has no term.
pub open spec fn month_short_fallback(m: u32) -> Seq<char> {
    if m == 1 { "Jan"@ } else if m == 2 { "Feb"@ } else if m == 3 { "Mar"@ }
    else if m == 4 { "Apr"@ } else if m == 5 { "May"@ } else if m == 6 { "Jun"@ }
    else if m == 7 { "Jul"@ } else if m == 8 { "Aug"@ } else if m == 9 { "Sep"@ }
    else if m == 10 { "Oct"@ } else if m == 11 { "Nov"@ } else if m == 12 { "Dec"@ }
    else { "undefined"@ }
}

/// The English month names used where the locale has no term.
pub open spec fn month_long_fallback(m: u32) -> Seq<char> {
    if m == 1 { "January"@ } else if m == 2 { "February"@ } else if m == 3 { "March"@ }
    else if m == 4 { "April"@ } else if m == 5 { "May"@ } else if m == 6 { "June"@ }
    else if m == 7 { "July"@ } else if m == 8 { "August"@ } else if m == 9 { "September"@ }
    else if m == 10 { "October"@ } else if m == 11 { "November"@ } else if m == 12 { "December"@ }
    else { "undefined"@ }
}

fn month_fallback(short: bool, m: u32) -> (r: String)
    ensures
        r@ == (if short { month_short_fallback(m) } else { month_long_fallback(m) }),
{
    if short {
        if m == 1 { String::from_str("Jan") } else if m == 2 { String::from_str("Feb") }
        else if m == 3 { String::from_str("Mar") } else if m == 4 { String::from_str("Apr") }
        else if m == 5 { String::from_str("May") } else if m == 6 { String::from_str("Jun") }
        else if m == 7 { String::from_str("Jul") } else if m == 8 { String::from_str("Aug") }
        else if m == 9 { String::from_str("Sep") } else if m == 10 { String::from_str("Oct") }
        else if m == 11 { String::from_str("Nov") } else if m == 12 { String::from_str("Dec") }
        else { String::from_str("undefined") }
    } else {
        if m == 1 { String::from_str("January") } else if m == 2 { String::from_str("February") }
        else if m == 3 { String::from_str("March") } else if m == 4 { String::from_str("April") }
        else if m == 5 { String::from_str("May") } else if m == 6 { String::from_str("June") }
        else if m == 7 { String::from_str("July") } else if m == 8 { String::from_str("August") }
        else if m == 9 { String::from_str("September") } else if m == 10 { String::from_str("October") }
        else if m == 11 { String::from_str("November") } else if m == 12 { String::from_str("December") }
        else { String::from_str("undefined") }
    }
}

/// A month's name: the locale's term, else the English fallback.
pub open spec fn month_name(locale: Locale, m: u32, form: TermForm) -> Seq<char> {
    match locale.month_term_spec(m, form) {
        Some(s) => s,
        None => if form == TermForm::Short { month_short_fallback(m) } else { month_long_fallback(m) },
    }
}

/// The remainder of `y` divided by 100 with the sign of `y`, as Rust's `%`
/// computes it.
pub open spec fn rem100(y: int) -> int {
    if y >= 0 { y % 100 } else { -((-y) % 100) }
}

/// The text of one date part of a date, or nothing where the date does not
/// have that part (a month of 0 or past 12, a day of 0).
pub open spec fn dp_text(form: DatePartForm, date: Date, locale: Locale) -> Option<Seq<char>> {
    match form {
        DatePartForm::Year(YearForm::Long) => Some(int_text(date.year as int)),
        DatePartForm::Year(YearForm::Short) => Some(pad2(rem100(date.year as int))),
        DatePartForm::Month(mf, _) => {
            if date.month == 0 || date.month > 12 {
                None
            } else {
                match mf {
                    MonthForm::Numeric => Some(decimal(date.month as nat)),
                    MonthForm::NumericLeadingZeros => Some(pad2(date.month as int)),
                    MonthForm::Long => Some(month_name(locale, date.month, TermForm::Long)),
                    MonthForm::Short => Some(month_name(locale, date.month, TermForm::Short)),
                }
            }
        },
        DatePartForm::Day(df) => {
            if date.day == 0 {
                None
            } else {
                match df {
                    DayForm::Numeric => Some(decimal(date.day as nat)),
                    DayForm::NumericLeadingZeros => Some(pad2(date.day as int)),
                    DayForm::Ordinal => Some(decimal(date.day as nat) + "ORD"@),
                }
            }
        },
    }
}

/// Which date parts have text: a day part exactly when the day is known
/// (not 0), whatever its form; a month part exactly when the month is 1 to
/// 12, whatever its form; a year part always.
pub proof fn lemma_date_part_present(date: Date, locale: Locale, df: DayForm, mf: MonthForm, strip: bool, yf: YearForm)
    ensures
        dp_text(DatePartForm::Day(df), date, locale) is None <==> date.day == 0,
        dp_text(DatePartForm::Month(mf, strip), date, locale) is None <==> (date.month < 1 || date.month > 12),
        dp_text(DatePartForm::Year(yf), date, locale) is Some,
{
}

/// Leading zeros pad a one-digit day or month to two digits and change
/// nothing else: the padded text is the plain numeral with a `0` in front
/// for 1 to 9, and the plain numeral itself from 10 on.
pub proof fn lemma_leading_zeros_pad(date: Date, locale: Locale, strip: bool)
    ensures
        1 <= date.day <= 9 ==> dp_text(DatePartForm::Day(DayForm::NumericLeadingZeros), date, locale) == Some(
            seq!['0'] + dp_text(DatePartForm::Day(DayForm::Numeric), date, locale)->0,
        ),
        date.day >= 10 ==> dp_text(DatePartForm::Day(DayForm::NumericLeadingZeros), date, locale) == dp_text(
            DatePartForm::Day(DayForm::Numeric),
            date,
            locale,
        ),
        1 <= date.month <= 9 ==> dp_text(DatePartForm::Month(MonthForm::NumericLeadingZeros, strip), date, locale)
            == Some(seq!['0'] + dp_text(DatePartForm::Month(MonthForm::Numeric, strip), date, locale)->0),
        10 <= date.month <= 12 ==> dp_text(DatePartForm::Month(MonthForm::NumericLeadingZeros, strip), date, locale)
            == dp_text(DatePartForm::Month(MonthForm::Numeric, strip), date, locale),
        dp_text(DatePartForm::Day(DayForm::Numeric), date, locale) matches Some(t) ==> t.len() >= 1,
{
    if date.day >= 1 {
        lemma_decimal_nonempty(date.day as nat);
    }
}

proof fn lemma_decimal_nonempty(n: nat)
    ensures
        decimal(n).len() >= 1,
    decreases n,
{
    if n >= 10 {
        lemma_decimal_nonempty(n / 10);
    }
}

/// The text of one date part of a date.
pub fn dp_render_text(form: DatePartForm, date: &Date, locale: &Locale) -> (r: Option<String>)
    ensures
        match r {
            Some(s) => dp_text(form, *date, *locale) == Some(s@),
            None => dp_text(form, *date, *locale) is None,
        },
{
    match form {
        DatePartForm::Year(YearForm::Long) => Some(int_to_string(date.year as i64)),
        DatePartForm::Year(YearForm::Short) => {
            let y = date.year as i64;
            let r = if y >= 0 { y % 100 } else { -((-y) % 100) };
            Some(pad2_to_string(r))
        },
        DatePartForm::Month(mf, _) => {
            if date.month == 0 || date.month > 12 {
                return None;
            }
            match mf {
                MonthForm::Numeric => {
                    let mut s = String::new();
                    push_decimal(&mut s, date.month as u64);
                    Some(s)
                },
                MonthForm::NumericLeadingZeros => Some(pad2_to_string(date.month as i64)),
                _ => {
                    let term_form = match mf {
                        MonthForm::Short => TermForm::Short,
                        _ => TermForm::Long,
                    };
                    match locale.month_term(date.month, term_form) {
                        Some(t) => Some(t.clone()),
                        None => {
                            let short = match term_form {
                                TermForm::Short => true,
                                _ => false,
                            };
                            Some(month_fallback(short, date.month))
                        },
                    }
                },
            }
        },
        DatePartForm::Day(df) => {
            if date.day == 0 {
                return None;
            }
            let mut s = String::new();
            match df {
                DayForm::Numeric => {
                    push_decimal(&mut s, date.day as u64);
                },
                DayForm::NumericLeadingZeros => {
                    s = pad2_to_string(date.day as i64);
                },
                DayForm::Ordinal => {
                    push_decimal(&mut s, date.day as u64);
                    s.append("ORD");
                },
            }
            Some(s)
        },
    }
}

/// The node one date part renders to, if the date has that part.
pub open spec fn dp_render_spec<T: View, O: View, F: OutputFormat<T, O>>(
    fmt: &F,
    part: DatePart,
    locale: Locale,
    date: Date,
) -> Option<T::V> {
    match dp_text(part.form, date, locale) {
        Some(s) => Some(
            affixed_spec(fmt, fmt.text_node_spec(s, formatting_or_default(part.formatting)), part.affixes),
        ),
        None => None,
    }
}

/// Renders one date part of a date, with the part's formatting and
/// affixes.
pub fn dp_render<T: View, O: View, F: OutputFormat<T, O>>(
    fmt: &F,
    part: &DatePart,
    locale: &Locale,
    date: &Date,
) -> (r: Option<T>)
    ensures
        match r {
            Some(x) => dp_render_spec(fmt, *part, *locale, *date) == Some(x@),
            None => dp_render_spec(fmt, *part, *locale, *date) is None,
        },
{
    match dp_render_text(part.form, date, locale) {
        Some(s) => Some(affixed_text(fmt, s.as_str(), part.formatting, &part.affixes)),
        None => None,
    }
}

/// The nodes the date parts render to, in order, leaving out the parts
/// that render nothing.
pub open spec fn rendered_parts<T: View, O: View, F: OutputFormat<T, O>>(
    fmt: &F,
    parts: Seq<DatePart>,
    locale: Locale,
    date: Date,
) -> Seq<T::V>
    decreases parts.len(),
{
    if parts.len() == 0 {
        Seq::empty()
    } else {
        rendered_parts(fmt, parts.drop_last(), locale, date) + match dp_render_spec(
            fmt,
            parts.last(),
            locale,
            date,
        ) {
            Some(x) => seq![x],
            None => Seq::empty(),
        }
    }
}

/// The date parts that show under the `date-parts` selector.
pub open spec fn selected_parts(parts: Seq<DatePart>, selector: DateParts) -> Seq<DatePart> {
    parts.filter(|p: DatePart| dp_matches_spec(p.form, selector))
}

/// The date parts under an optional selector: all of them without one.
pub open spec fn parts_under(parts: Seq<DatePart>, selector: Option<DateParts>) -> Seq<DatePart> {
    match selector {
        Some(sel) => selected_parts(parts, sel),
        None => parts,
    }
}

fn render_parts<T: View, O: View, F: OutputFormat<T, O>>(
    fmt: &F,
    parts: &Vec<DatePart>,
    selector: Option<DateParts>,
    locale: &Locale,
    date: &Date,
) -> (r: Vec<T>)
    ensures
        r@.map_values(|x: T| x@) == rendered_parts(fmt, parts_under(parts@, selector), *locale, *date),
{
    let mut out: Vec<T> = Vec::new();
    let mut i: usize = 0;
    while i < parts.len()
        invariant
            i <= parts@.len(),
            out@.map_values(|x: T| x@) == rendered_parts(
                fmt,
                parts_under(parts@.subrange(0, i as int), selector),
                *locale,
                *date,
            ),
        decreases parts.len() - i,
    {
        let ghost before = parts@.subrange(0, i as int);
        let ghost after = parts@.subrange(0, i + 1);
        assert(after == before.push(parts@[i as int]));
        let shows = match selector {
            Some(sel) => dp_matches(&parts[i], sel),
            None => true,
        };
        proof {
            match selector {
                Some(sel) => {
                    reveal(Seq::filter);
                    assert(after.drop_last() == before);
                    assert(selected_parts(after, sel) == if dp_matches_spec(parts@[i as int].form, sel) {
                        selected_parts(before, sel).push(parts@[i as int])
                    } else {
                        selected_parts(before, sel)
                    });
                },
                None => {},
            }
        }
        if shows {
            let ghost prev = out@.map_values(|x: T| x@);
            let ghost sa = parts_under(after, selector);
            assert(sa.drop_last() == parts_under(before, selector));
            assert(sa.last() == parts@[i as int]);
            match dp_render(fmt, &parts[i], locale, date) {
                Some(x) => {
                    out.push(x);
                    assert(out@.map_values(|x: T| x@) == prev.push(x@));
                },
                None => {},
            }
            assert(out@.map_values(|x: T| x@) == rendered_parts(fmt, sa, *locale, *date));
        }
        i = i + 1;
    }
    assert(parts@.subrange(0, parts@.len() as int) == parts@);
    out
}

/// What a date element renders to for a date value: the rendered parts
/// grouped by the delimiter with the element's formatting, inside the
/// element's affixes.
pub open spec fn date_content<T: View, O: View, F: OutputFormat<T, O>>(
    fmt: &F,
    parts: Seq<T::V>,
    delimiter: Seq<char>,
    formatting: Option<crate::style::Formatting>,
    affixes: crate::style::Affixes,
) -> T::V {
    affixed_spec(fmt, fmt.group_spec(parts, delimiter, formatting_or_default(formatting)), affixes)
}

/// Renders an independent date element for the value of its variable, if
/// the reference has one, recording the value's disambiguation tokens.
/// Returns the rendering and whether it rendered anything.
pub fn independent_date_intermediate<T: View, O: View, F: OutputFormat<T, O>>(
    fmt: &F,
    idate: &IndependentDate,
    value: Option<&DateOrRange>,
    locale: &Locale,
    state: &mut IrState,
) -> (r: (IR<T>, GroupVars))
    ensures
        match value {
            None => final(state).token_set() == old(state).token_set(),
            Some(v) => final(state).token_set() == old(state).token_set() + range_tokens(*v, idate.date_parts@),
        },
        match value_date(value) {
            None => r.0 matches IR::Rendered(None) && r.1 == GroupVars::Missing,
            Some(d) => r.0 matches IR::Rendered(Some(x)) && r.1 == GroupVars::Important
                && x@ == date_content(
                fmt,
                rendered_parts(fmt, idate.date_parts@, *locale, d),
                idate.delimiter.0@,
                idate.formatting,
                idate.affixes,
            ),
        },
{
    let date = match value {
        Some(v) => {
            mask_range(v, idate.date_parts.as_slice(), state);
            v.single_or_first()
        },
        None => None,
    };
    match date {
        Some(d) => {
            let each = render_parts(fmt, &idate.date_parts, None, locale, &d);
            let f = or_default_formatting(idate.formatting);
            let g = fmt.group(each.as_slice(), idate.delimiter.0.as_str(), &f);
            let content = affixed(fmt, g, &idate.affixes);
            (IR::Rendered(Some(content)), GroupVars::rendered_if(true))
        },
        None => (IR::Rendered(None), GroupVars::rendered_if(false)),
    }
}

/// Renders a localized date element for the value of its variable, if the
/// reference has one: the locale's date format of the element's form,
/// keeping the parts that the element's `date-parts` selects. The
/// disambiguation tokens are masked by the element's own date parts.
pub fn localized_date_intermediate<T: View, O: View, F: OutputFormat<T, O>>(
    fmt: &F,
    ldate: &LocalizedDate,
    value: Option<&DateOrRange>,
    locale: &Locale,
    state: &mut IrState,
) -> (r: (IR<T>, GroupVars))
    requires
        locale.date_spec(ldate.form) is Some,
    ensures
        match value {
            None => final(state).token_set() == old(state).token_set(),
            Some(v) => final(state).token_set() == old(state).token_set() + range_tokens(*v, ldate.date_parts@),
        },
        match value_date(value) {
            None => r.0 matches IR::Rendered(None) && r.1 == GroupVars::Missing,
            Some(d) => {
                let ld = locale.date_spec(ldate.form)->0;
                r.0 matches IR::Rendered(Some(x)) && r.1 == GroupVars::Important && x@ == date_content(
                    fmt,
                    rendered_parts(fmt, selected_parts(ld.date_parts@, ldate.parts_selector), *locale, d),
                    ld.delimiter.0@,
                    ldate.formatting,
                    ldate.affixes,
                )
            },
        },
{
    let locale_date: &LocaleDate = match locale.date(ldate.form) {
        Some(ld) => ld,
        None => {
            assert(false);
            return (IR::Rendered(None), GroupVars::rendered_if(false));
        },
    };
    let date = match value {
        Some(v) => {
            mask_range(v, ldate.date_parts.as_slice(), state);
            v.single_or_first()
        },
        None => None,
    };
    match date {
        Some(d) => {
            let each = render_parts(fmt, &locale_date.date_parts, Some(ldate.parts_selector), locale, &d);
            let f = or_default_formatting(ldate.formatting);
            let g = fmt.group(each.as_slice(), locale_date.delimiter.0.as_str(), &f);
            let content = affixed(fmt, g, &ldate.affixes);
            (IR::Rendered(Some(content)), GroupVars::rendered_if(true))
        },
        None => (IR::Rendered(None), GroupVars::rendered_if(false)),
    }
}

/// Renders a date element of either kind.
pub fn body_date_intermediate<T: View, O: View, F: OutputFormat<T, O>>(
    fmt: &F,
    date: &BodyDate,
    value: Option<&DateOrRange>,
    locale: &Locale,
    state: &mut IrState,
) -> (r: (IR<T>, GroupVars))
    requires
        date matches BodyDate::Local(l) ==> locale.date_spec(l.form) is Some,
    ensures
        date matches BodyDate::Indep(i) ==> match value {
            None => final(state).token_set() == old(state).token_set(),
            Some(v) => final(state).token_set() == old(state).token_set() + range_tokens(*v, i.date_parts@),
        },
        date matches BodyDate::Local(l) ==> match value {
            None => final(state).token_set() == old(state).token_set(),
            Some(v) => final(state).token_set() == old(state).token_set() + range_tokens(*v, l.date_parts@),
        },
        match value_date(value) {
            None => r.0 matches IR::Rendered(None) && r.1 == GroupVars::Missing,
            Some(d) => r.0 matches IR::Rendered(Some(x)) && r.1 == GroupVars::Important && (match date {
                BodyDate::Indep(i) => x@ == date_content(
                    fmt,
                    rendered_parts(fmt, i.date_parts@, *locale, d),
                    i.delimiter.0@,
                    i.formatting,
                    i.affixes,
                ),
                BodyDate::Local(l) => {
                    let ld = locale.date_spec(l.form)->0;
                    x@ == date_content(
                        fmt,
                        rendered_parts(fmt, selected_parts(ld.date_parts@, l.parts_selector), *locale, d),
                        ld.delimiter.0@,
                        l.formatting,
                        l.affixes,
                    )
                },
            }),
        },
{
    match date {
        BodyDate::Indep(i) => independent_date_intermediate(fmt, i, value, locale, state),
        BodyDate::Local(l) => localized_date_intermediate(fmt, l, value, locale, state),
    }
}

} // verus!
