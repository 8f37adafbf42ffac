//! The parts of a locale that date rendering consults.
use vstd::prelude::*;
use crate::style::{DateForm, DatePart, Delimiter};
use crate::terms::TermForm;

verus! {

/// The singular of a month's term in one form.
#[derive(Debug, Clone, PartialEq, Eq)]
pub struct MonthTermEntry {
    /// 1 to 12
    pub month: u32,
    pub form: TermForm,
    pub singular: String,
}

/// A locale's date format (`<cs:date>` in a locale).
#[derive(Debug, Clone, PartialEq, Eq)]
pub struct LocaleDate {
    pub form: DateForm,
    pub date_parts: Vec<DatePart>,
    pub delimiter: Delimiter,
}

/// A locale: its month terms and its date formats. Where a month term or
/// a date format occurs more than once, the first counts.
#[derive(Debug, Clone, PartialEq, Eq)]
pub struct Locale {
    pub month_terms: Vec<MonthTermEntry>,
    pub dates: Vec<LocaleDate>,
}

/// The first term in `terms` for `month` in `form`.
pub open spec fn first_month_term(terms: Seq<MonthTermEntry>, month: u32, form: TermForm) -> Option<Seq<char>>
    decreases terms.len(),
{
    if terms.len() == 0 {
        None
    } else if terms[0].month == month && terms[0].form == form {
        Some(terms[0].singular@)
    } else {
        first_month_term(terms.drop_first(), month, form)
    }
}

/// The index of the first date format of `form` in `dates`.
pub open spec fn first_date_index(dates: Seq<LocaleDate>, form: DateForm) -> Option<int>
    decreases dates.len(),
{
    if dates.len() == 0 {
        None
    } else if dates[0].form == form {
        Some(0)
    } else {
        match first_date_index(dates.drop_first(), form) {
            Some(i) => Some(i + 1),
            None => None,
        }
    }
}

impl Locale {
    /// The month term for `month` in `form`, if the locale has one.
    pub open spec fn month_term_spec(&self, month: u32, form: TermForm) -> Option<Seq<char>> {
        first_month_term(self.month_terms@, month, form)
    }

    /// The date format of `form`, if the locale has one.
    pub open spec fn date_spec(&self, form: DateForm) -> Option<LocaleDate> {
        match first_date_index(self.dates@, form) {
            Some(i) => Some(self.dates@[i]),
            None => None,
        }
    }

    /// The month term for `month` in `form`, if the locale has one.
    pub fn month_term(&self, month: u32, form: TermForm) -> (r: Option<&String>)
        ensures
            match r {
                Some(s) => self.month_term_spec(month, form) == Some(s@),
                None => self.month_term_spec(month, form) is None,
            },
    {
        let mut i: usize = 0;
        assert(self.month_terms@.skip(0) == self.month_terms@);
        while i < self.month_terms.len()
            invariant
                i <= self.month_terms@.len(),
                first_month_term(self.month_terms@.skip(i as int), month, form)
                    == self.month_term_spec(month, form),
            decreases self.month_terms.len() - i,
        {
            let t = &self.month_terms[i];
            assert(self.month_terms@.skip(i as int).drop_first() == self.month_terms@.skip(i + 1));
            if t.month == month && t.form == form {
                return Some(&t.singular);
            }
            i = i + 1;
        }
        None
    }

    /// The date format of `form`, if the locale has one.
    pub fn date(&self, form: DateForm) -> (r: Option<&LocaleDate>)
        ensures
            match r {
                Some(d) => self.date_spec(form) == Some(*d),
                None => self.date_spec(form) is None,
            },
    {
        let mut i: usize = 0;
        while i < self.dates.len()
            invariant
                i <= self.dates@.len(),
                forall|j: int| 0 <= j < i ==> self.dates@[j].form != form,
            decreases self.dates.len() - i,
        {
            if self.dates[i].form == form {
                proof {
                    lemma_first_index_is(self.dates@, form, i as int);
                }
                return Some(&self.dates[i]);
            }
            i = i + 1;
        }
        proof {
            lemma_first_index_none(self.dates@, form);
        }
        None
    }
}

proof fn lemma_first_index_is(dates: Seq<LocaleDate>, form: DateForm, i: int)
    requires
        0 <= i < dates.len(),
        dates[i].form == form,
        forall|j: int| 0 <= j < i ==> dates[j].form != form,
    ensures
        first_date_index(dates, form) == Some(i),
    decreases i,
{
    if i > 0 {
        lemma_first_index_is(dates.drop_first(), form, i - 1);
    }
}

proof fn lemma_first_index_none(dates: Seq<LocaleDate>, form: DateForm)
    requires
        forall|j: int| 0 <= j < dates.len() ==> dates[j].form != form,
    ensures
        first_date_index(dates, form) is None,
    decreases dates.len(),
{
    if dates.len() > 0 {
        lemma_first_index_none(dates.drop_first(), form);
    }
}

} // verus!
