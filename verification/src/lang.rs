//! Locale identifiers (`xml:lang`) and the order in which locales are
//! consulted.
use vstd::prelude::*;
use crate::strings::push_char;

verus! {

/// Where a locale is looked for: one defined inline in the style (`None`
/// is the one that overrides every language), or a locale file.
#[derive(Debug, Clone, PartialEq, Eq)]
pub enum LocaleSource {
    Inline(Option<Lang>),
    File(Lang),
}

/// A parsable representation of `xml:lang`.
#[derive(Debug, Clone, PartialEq, Eq)]
pub enum Lang {
    /// ISO 639 language code, and optionally a hyphen and a 2-letter ISO
    /// 3166 country code, e.g. `en` or `en-US`.
    Iso(IsoLang, Option<IsoCountry>),
    /// IANA-assigned language codes
    Iana(String),
    /// Agreed upon language ID (max 8 characters).
    Unofficial(String),
}

/// Language codes for `Lang::Iso`.
#[derive(Debug, Clone, PartialEq, Eq)]
pub enum IsoLang {
    English,
    Deutsch,
    Portuguese,
    Chinese,
    French,
    Spanish,
    Japanese,
    Arabic,
    /// Languages that take no part in the fallback relation.
    Other(String),
}

/// Countries for `Lang::Iso` dialects.
#[derive(Debug, Clone, PartialEq, Eq)]
pub enum IsoCountry {
    /// United States
    US,
    /// Great Britain
    GB,
    /// Australia
    AU,
    /// Deutschland
    DE,
    /// Austria
    AT,
    /// Switzerland
    CH,
    /// China
    CN,
    /// Taiwan
    TW,
    /// Portugal
    PT,
    /// Brazil
    BR,
    /// Japan
    JP,
    /// Spain
    ES,
    /// France
    FR,
    /// Canada
    CA,
    Other(String),
}

/// An attribute value that the style's grammar does not accept.
#[derive(Debug, Clone, PartialEq, Eq)]
pub struct UnknownAttributeValue {
    pub value: String,
}

/// `IsoLang` with its text as a sequence of characters.
pub enum IsoLangV {
    English,
    Deutsch,
    Portuguese,
    Chinese,
    French,
    Spanish,
    Japanese,
    Arabic,
    Other(Seq<char>),
}

/// `IsoCountry` with its text as a sequence of characters.
pub enum IsoCountryV {
    US,
    GB,
    AU,
    DE,
    AT,
    CH,
    CN,
    TW,
    PT,
    BR,
    JP,
    ES,
    FR,
    CA,
    Other(Seq<char>),
}

/// `Lang` with its text as sequences of characters.
pub enum LangV {
    Iso(IsoLangV, Option<IsoCountryV>),
    Iana(Seq<char>),
    Unofficial(Seq<char>),
}

impl View for IsoLang {
    type V = IsoLangV;

    open spec fn view(&self) -> IsoLangV {
        match self {
            IsoLang::English => IsoLangV::English,
            IsoLang::Deutsch => IsoLangV::Deutsch,
            IsoLang::Portuguese => IsoLangV::Portuguese,
            IsoLang::Chinese => IsoLangV::Chinese,
            IsoLang::French => IsoLangV::French,
            IsoLang::Spanish => IsoLangV::Spanish,
            IsoLang::Japanese => IsoLangV::Japanese,
            IsoLang::Arabic => IsoLangV::Arabic,
            IsoLang::Other(s) => IsoLangV::Other(s@),
        }
    }
}

impl View for IsoCountry {
    type V = IsoCountryV;

    open spec fn view(&self) -> IsoCountryV {
        match self {
            IsoCountry::US => IsoCountryV::US,
            IsoCountry::GB => IsoCountryV::GB,
            IsoCountry::AU => IsoCountryV::AU,
            IsoCountry::DE => IsoCountryV::DE,
            IsoCountry::AT => IsoCountryV::AT,
            IsoCountry::CH => IsoCountryV::CH,
            IsoCountry::CN => IsoCountryV::CN,
            IsoCountry::TW => IsoCountryV::TW,
            IsoCountry::PT => IsoCountryV::PT,
            IsoCountry::BR => IsoCountryV::BR,
            IsoCountry::JP => IsoCountryV::JP,
            IsoCountry::ES => IsoCountryV::ES,
            IsoCountry::FR => IsoCountryV::FR,
            IsoCountry::CA => IsoCountryV::CA,
            IsoCountry::Other(s) => IsoCountryV::Other(s@),
        }
    }
}

/// The view of an optional country.
pub open spec fn country_view(c: Option<IsoCountry>) -> Option<IsoCountryV> {
    match c {
        Some(c) => Some(c@),
        None => None,
    }
}

impl View for Lang {
    type V = LangV;

    open spec fn view(&self) -> LangV {
        match self {
            Lang::Iso(l, c) => LangV::Iso(l@, country_view(*c)),
            Lang::Iana(s) => LangV::Iana(s@),
            Lang::Unofficial(s) => LangV::Unofficial(s@),
        }
    }
}

/// The text of a language code: the two-letter code of the known ones.
pub open spec fn iso_lang_text(l: IsoLangV) -> Seq<char> {
    match l {
        IsoLangV::English => seq!['e', 'n'],
        IsoLangV::Deutsch => seq!['d', 'e'],
        IsoLangV::Portuguese => seq!['p', 't'],
        IsoLangV::Spanish => seq!['e', 's'],
        IsoLangV::French => seq!['f', 'r'],
        IsoLangV::Chinese => seq!['z', 'h'],
        IsoLangV::Japanese => seq!['j', 'a'],
        IsoLangV::Arabic => seq!['a', 'r'],
        IsoLangV::Other(s) => s,
    }
}

/// The text of a country code: the variant's name for the known ones.
pub open spec fn iso_country_text(c: IsoCountryV) -> Seq<char> {
    match c {
        IsoCountryV::US => seq!['U', 'S'],
        IsoCountryV::GB => seq!['G', 'B'],
        IsoCountryV::AU => seq!['A', 'U'],
        IsoCountryV::DE => seq!['D', 'E'],
        IsoCountryV::AT => seq!['A', 'T'],
        IsoCountryV::CH => seq!['C', 'H'],
        IsoCountryV::CN => seq!['C', 'N'],
        IsoCountryV::TW => seq!['T', 'W'],
        IsoCountryV::PT => seq!['P', 'T'],
        IsoCountryV::BR => seq!['B', 'R'],
        IsoCountryV::JP => seq!['J', 'P'],
        IsoCountryV::ES => seq!['E', 'S'],
        IsoCountryV::FR => seq!['F', 'R'],
        IsoCountryV::CA => seq!['C', 'A'],
        IsoCountryV::Other(s) => s,
    }
}

/// The text of a language tag: `en`, `en-US`, `i-...` or `x-...`.
pub open spec fn lang_text(l: LangV) -> Seq<char> {
    match l {
        LangV::Iso(lang, None) => iso_lang_text(lang),
        LangV::Iso(lang, Some(c)) => iso_lang_text(lang) + seq!['-'] + iso_country_text(c),
        LangV::Iana(s) => seq!['i', '-'] + s,
        LangV::Unofficial(s) => seq!['x', '-'] + s,
    }
}

/// The language a code names; any code but the known ones (two-letter
/// and three-letter ISO 639) is `Other`.
pub open spec fn iso_lang_of(s: Seq<char>) -> IsoLangV {
    if s == seq!['e', 'n'] || s == seq!['e', 'n', 'g'] {
        IsoLangV::English
    } else if s == seq!['d', 'e'] || s == seq!['d', 'e', 'u'] {
        IsoLangV::Deutsch
    } else if s == seq!['p', 't'] || s == seq!['p', 'o', 'r'] {
        IsoLangV::Portuguese
    } else if s == seq!['z', 'h'] || s == seq!['z', 'h', 'o'] {
        IsoLangV::Chinese
    } else if s == seq!['f', 'r'] || s == seq!['f', 'r', 'a'] {
        IsoLangV::French
    } else if s == seq!['e', 's'] || s == seq!['e', 's', 'p'] {
        IsoLangV::Spanish
    } else if s == seq!['j', 'a'] || s == seq!['j', 'p', 'n'] {
        IsoLangV::Japanese
    } else if s == seq!['a', 'r'] || s == seq!['a', 'r', 'a'] {
        IsoLangV::Arabic
    } else {
        IsoLangV::Other(s)
    }
}

/// The country a code names; any code but the known country names is
/// `Other`.
pub open spec fn iso_country_of(s: Seq<char>) -> IsoCountryV {
    if s == seq!['U', 'S'] {
        IsoCountryV::US
    } else if s == seq!['G', 'B'] {
        IsoCountryV::GB
    } else if s == seq!['A', 'U'] {
        IsoCountryV::AU
    } else if s == seq!['D', 'E'] {
        IsoCountryV::DE
    } else if s == seq!['A', 'T'] {
        IsoCountryV::AT
    } else if s == seq!['C', 'H'] {
        IsoCountryV::CH
    } else if s == seq!['C', 'N'] {
        IsoCountryV::CN
    } else if s == seq!['T', 'W'] {
        IsoCountryV::TW
    } else if s == seq!['P', 'T'] {
        IsoCountryV::PT
    } else if s == seq!['B', 'R'] {
        IsoCountryV::BR
    } else if s == seq!['J', 'P'] {
        IsoCountryV::JP
    } else if s == seq!['E', 'S'] {
        IsoCountryV::ES
    } else if s == seq!['F', 'R'] {
        IsoCountryV::FR
    } else if s == seq!['C', 'A'] {
        IsoCountryV::CA
    } else {
        IsoCountryV::Other(s)
    }
}

/// `en-US`, the final fallback.
pub open spec fn en_us_spec() -> Lang {
    Lang::Iso(IsoLang::English, Some(IsoCountry::US))
}

/// The locale file consulted after the one for `l`, if any: a dialect
/// falls back to the main dialect of its language, and everything falls
/// back to `en-US`, after which there is nothing.
pub open spec fn file_next(l: Lang) -> Option<Lang> {
    match l {
        Lang::Iso(IsoLang::English, Some(IsoCountry::US)) => None,
        Lang::Iso(IsoLang::English, Some(_)) => Some(en_us_spec()),
        Lang::Iso(IsoLang::Deutsch, Some(co)) if co != IsoCountry::DE => Some(
            Lang::Iso(IsoLang::Deutsch, Some(IsoCountry::DE)),
        ),
        Lang::Iso(IsoLang::French, Some(co)) if co != IsoCountry::FR => Some(
            Lang::Iso(IsoLang::French, Some(IsoCountry::FR)),
        ),
        Lang::Iso(IsoLang::Portuguese, Some(co)) if co != IsoCountry::PT => Some(
            Lang::Iso(IsoLang::Portuguese, Some(IsoCountry::PT)),
        ),
        Lang::Iso(IsoLang::Chinese, Some(IsoCountry::TW)) => Some(
            Lang::Iso(IsoLang::Chinese, Some(IsoCountry::CN)),
        ),
        _ => Some(en_us_spec()),
    }
}

/// How many steps of `file_next` lead from `l` to `en-US`.
pub open spec fn file_rank(l: Lang) -> nat {
    match l {
        Lang::Iso(IsoLang::English, Some(IsoCountry::US)) => 0,
        Lang::Iso(IsoLang::Deutsch, Some(co)) if co != IsoCountry::DE => 2,
        Lang::Iso(IsoLang::French, Some(co)) if co != IsoCountry::FR => 2,
        Lang::Iso(IsoLang::Portuguese, Some(co)) if co != IsoCountry::PT => 2,
        Lang::Iso(IsoLang::Chinese, Some(IsoCountry::TW)) => 2,
        _ => 1,
    }
}

/// Each step of the file fallback brings the chain closer to its end.
pub proof fn lemma_file_next_decreases(l: Lang)
    ensures
        file_next(l) is None <==> l == en_us_spec(),
        file_next(l) matches Some(n) ==> file_rank(n) < file_rank(l),
{
}

/// The locale files consulted for `l`, in order.
pub open spec fn file_chain(l: Lang) -> Seq<Lang>
    decreases file_rank(l),
{
    match file_next(l) {
        None => seq![l],
        Some(n) => {
            if file_rank(n) < file_rank(l) {
                seq![l] + file_chain(n)
            } else {
                seq![l]
            }
        },
    }
}

/// The inline locales consulted for `l`, in order: the dialect, then its
/// language alone.
pub open spec fn inline_chain(l: Lang) -> Seq<Lang> {
    match l {
        Lang::Iso(lang, Some(_)) => seq![l, Lang::Iso(lang, None)],
        _ => seq![l],
    }
}

/// Every locale source consulted for `l`, in order: the inline locales,
/// the inline locale that overrides all languages, then the files.
pub open spec fn source_chain(l: Lang) -> Seq<LocaleSource> {
    inline_chain(l).map_values(|x: Lang| LocaleSource::Inline(Some(x)))
        + seq![LocaleSource::Inline(None)]
        + file_chain(l).map_values(|x: Lang| LocaleSource::File(x))
}

impl IsoLang {
    /// An equal copy.
    pub fn duplicate(&self) -> (r: IsoLang)
        ensures
            r == *self,
    {
        match self {
            IsoLang::English => IsoLang::English,
            IsoLang::Deutsch => IsoLang::Deutsch,
            IsoLang::Portuguese => IsoLang::Portuguese,
            IsoLang::Chinese => IsoLang::Chinese,
            IsoLang::French => IsoLang::French,
            IsoLang::Spanish => IsoLang::Spanish,
            IsoLang::Japanese => IsoLang::Japanese,
            IsoLang::Arabic => IsoLang::Arabic,
            IsoLang::Other(s) => IsoLang::Other(s.clone()),
        }
    }

    /// The language's code: its two-letter code, or the text of `Other`.
    pub fn to_string(&self) -> (r: String)
        ensures
            r@ == iso_lang_text(self@),
    {
        let mut s = String::new();
        match self {
            IsoLang::English => { push_char(&mut s, 'e'); push_char(&mut s, 'n'); },
            IsoLang::Deutsch => { push_char(&mut s, 'd'); push_char(&mut s, 'e'); },
            IsoLang::Portuguese => { push_char(&mut s, 'p'); push_char(&mut s, 't'); },
            IsoLang::Spanish => { push_char(&mut s, 'e'); push_char(&mut s, 's'); },
            IsoLang::French => { push_char(&mut s, 'f'); push_char(&mut s, 'r'); },
            IsoLang::Chinese => { push_char(&mut s, 'z'); push_char(&mut s, 'h'); },
            IsoLang::Japanese => { push_char(&mut s, 'j'); push_char(&mut s, 'a'); },
            IsoLang::Arabic => { push_char(&mut s, 'a'); push_char(&mut s, 'r'); },
            IsoLang::Other(o) => { s = o.clone(); },
        }
        s
    }
}

impl IsoCountry {
    /// An equal copy.
    pub fn duplicate(&self) -> (r: IsoCountry)
        ensures
            r == *self,
    {
        match self {
            IsoCountry::US => IsoCountry::US,
            IsoCountry::GB => IsoCountry::GB,
            IsoCountry::AU => IsoCountry::AU,
            IsoCountry::DE => IsoCountry::DE,
            IsoCountry::AT => IsoCountry::AT,
            IsoCountry::CH => IsoCountry::CH,
            IsoCountry::CN => IsoCountry::CN,
            IsoCountry::TW => IsoCountry::TW,
            IsoCountry::PT => IsoCountry::PT,
            IsoCountry::BR => IsoCountry::BR,
            IsoCountry::JP => IsoCountry::JP,
            IsoCountry::ES => IsoCountry::ES,
            IsoCountry::FR => IsoCountry::FR,
            IsoCountry::CA => IsoCountry::CA,
            IsoCountry::Other(s) => IsoCountry::Other(s.clone()),
        }
    }

    /// The country's code: the variant's name, or the text of `Other`.
    pub fn to_string(&self) -> (r: String)
        ensures
            r@ == iso_country_text(self@),
    {
        let mut s = String::new();
        match self {
            IsoCountry::US => { push_char(&mut s, 'U'); push_char(&mut s, 'S'); },
            IsoCountry::GB => { push_char(&mut s, 'G'); push_char(&mut s, 'B'); },
            IsoCountry::AU => { push_char(&mut s, 'A'); push_char(&mut s, 'U'); },
            IsoCountry::DE => { push_char(&mut s, 'D'); push_char(&mut s, 'E'); },
            IsoCountry::AT => { push_char(&mut s, 'A'); push_char(&mut s, 'T'); },
            IsoCountry::CH => { push_char(&mut s, 'C'); push_char(&mut s, 'H'); },
            IsoCountry::CN => { push_char(&mut s, 'C'); push_char(&mut s, 'N'); },
            IsoCountry::TW => { push_char(&mut s, 'T'); push_char(&mut s, 'W'); },
            IsoCountry::PT => { push_char(&mut s, 'P'); push_char(&mut s, 'T'); },
            IsoCountry::BR => { push_char(&mut s, 'B'); push_char(&mut s, 'R'); },
            IsoCountry::JP => { push_char(&mut s, 'J'); push_char(&mut s, 'P'); },
            IsoCountry::ES => { push_char(&mut s, 'E'); push_char(&mut s, 'S'); },
            IsoCountry::FR => { push_char(&mut s, 'F'); push_char(&mut s, 'R'); },
            IsoCountry::CA => { push_char(&mut s, 'C'); push_char(&mut s, 'A'); },
            IsoCountry::Other(o) => { s = o.clone(); },
        }
        s
    }
}

fn copy_country(c: &Option<IsoCountry>) -> (r: Option<IsoCountry>)
    ensures
        r == *c,
{
    match c {
        Some(c) => Some(c.duplicate()),
        None => None,
    }
}

impl Lang {
    /// `en-US`
    pub fn en_us() -> (r: Self)
        ensures
            r == en_us_spec(),
    {
        Lang::Iso(IsoLang::English, Some(IsoCountry::US))
    }

    /// `en-AU`
    pub fn en_au() -> (r: Self)
        ensures
            r == Lang::Iso(IsoLang::English, Some(IsoCountry::AU)),
    {
        Lang::Iso(IsoLang::English, Some(IsoCountry::AU))
    }

    /// An equal copy.
    pub fn duplicate(&self) -> (r: Lang)
        ensures
            r == *self,
    {
        match self {
            Lang::Iso(l, c) => Lang::Iso(l.duplicate(), copy_country(c)),
            Lang::Iana(s) => Lang::Iana(s.clone()),
            Lang::Unofficial(s) => Lang::Unofficial(s.clone()),
        }
    }

    /// Whether this is English, of any country. Useful for title-casing.
    pub(crate) fn is_english(&self) -> (r: bool)
        ensures
            r == (self matches Lang::Iso(IsoLang::English, _)),
    {
        match self {
            Lang::Iso(IsoLang::English, _) => true,
            _ => false,
        }
    }

    /// The locale file consulted after this one's, if any.
    pub fn file_fallback(&self) -> (r: Option<Lang>)
        ensures
            r == file_next(*self),
    {
        match self {
            Lang::Iso(IsoLang::English, Some(IsoCountry::US)) => None,
            Lang::Iso(IsoLang::English, Some(_)) => Some(Lang::en_us()),
            Lang::Iso(IsoLang::Deutsch, Some(co)) if !matches!(co, IsoCountry::DE) => Some(
                Lang::Iso(IsoLang::Deutsch, Some(IsoCountry::DE)),
            ),
            Lang::Iso(IsoLang::French, Some(co)) if !matches!(co, IsoCountry::FR) => Some(
                Lang::Iso(IsoLang::French, Some(IsoCountry::FR)),
            ),
            Lang::Iso(IsoLang::Portuguese, Some(co)) if !matches!(co, IsoCountry::PT) => Some(
                Lang::Iso(IsoLang::Portuguese, Some(IsoCountry::PT)),
            ),
            Lang::Iso(IsoLang::Chinese, Some(IsoCountry::TW)) => Some(
                Lang::Iso(IsoLang::Chinese, Some(IsoCountry::CN)),
            ),
            _ => Some(Lang::en_us()),
        }
    }

    /// The inline locale consulted after this one's, if any: a dialect's
    /// language alone.
    pub fn inline_fallback(&self) -> (r: Option<Lang>)
        ensures
            r == (match *self {
                Lang::Iso(lang, Some(_)) => Some(Lang::Iso(lang, None)),
                _ => None,
            }),
    {
        match self {
            Lang::Iso(lang, Some(_)) => Some(Lang::Iso(lang.duplicate(), None)),
            _ => None,
        }
    }

    /// The locale files to consult, in order; the last is always `en-US`.
    pub fn file_iter(&self) -> (r: Vec<Lang>)
        ensures
            r@ == file_chain(*self),
    {
        let mut out: Vec<Lang> = Vec::new();
        let mut current: Lang = self.duplicate();
        loop
            invariant
                out@ + file_chain(current) == file_chain(*self),
            decreases file_rank(current),
        {
            proof {
                lemma_file_next_decreases(current);
            }
            let next = current.file_fallback();
            match next {
                None => {
                    assert(file_chain(current) == seq![current]);
                    out.push(current);
                    return out;
                },
                Some(n) => {
                    assert(file_chain(current) == seq![current] + file_chain(n));
                    out.push(current);
                    assert(out@ + file_chain(n) == file_chain(*self));
                    current = n;
                },
            }
        }
    }

    /// The inline locales to consult, in order: this one, then its
    /// language alone where this one names a country.
    pub fn inline_iter(&self) -> (r: Vec<Lang>)
        ensures
            r@ == inline_chain(*self),
    {
        let mut out: Vec<Lang> = Vec::new();
        out.push(self.duplicate());
        match self.inline_fallback() {
            Some(l) => out.push(l),
            None => {},
        }
        out
    }

    /// Every locale source to consult, in order.
    pub fn iter(&self) -> (r: Vec<LocaleSource>)
        ensures
            r@ == source_chain(*self),
    {
        let inline = self.inline_iter();
        let files = self.file_iter();
        let mut out: Vec<LocaleSource> = Vec::new();
        let mut i: usize = 0;
        while i < inline.len()
            invariant
                i <= inline.len(),
                inline@ == inline_chain(*self),
                out@ == inline@.subrange(0, i as int).map_values(|x: Lang| LocaleSource::Inline(Some(x))),
            decreases inline.len() - i,
        {
            out.push(LocaleSource::Inline(Some(inline[i].duplicate())));
            assert(inline@.subrange(0, i + 1) == inline@.subrange(0, i as int).push(inline@[i as int]));
            i = i + 1;
        }
        assert(inline@.subrange(0, inline.len() as int) == inline@);
        out.push(LocaleSource::Inline(None));
        let ghost prefix = out@;
        let mut j: usize = 0;
        while j < files.len()
            invariant
                j <= files.len(),
                files@ == file_chain(*self),
                out@ == prefix + files@.subrange(0, j as int).map_values(|x: Lang| LocaleSource::File(x)),
            decreases files.len() - j,
        {
            out.push(LocaleSource::File(files[j].duplicate()));
            assert(files@.subrange(0, j + 1) == files@.subrange(0, j as int).push(files@[j as int]));
            j = j + 1;
        }
        assert(files@.subrange(0, files.len() as int) == files@);
        out
    }

    /// The tag's text: `en`, `en-US`, `i-...` or `x-...`.
    pub fn to_string(&self) -> (r: String)
        ensures
            r@ == lang_text(self@),
    {
        match self {
            Lang::Iso(l, None) => l.to_string(),
            Lang::Iso(l, Some(c)) => {
                let mut s = l.to_string();
                push_char(&mut s, '-');
                let cs = c.to_string();
                s.append(cs.as_str());
                s
            },
            Lang::Iana(u) => {
                let mut s = String::new();
                push_char(&mut s, 'i');
                push_char(&mut s, '-');
                s.append(u.as_str());
                s
            },
            Lang::Unofficial(u) => {
                let mut s = String::new();
                push_char(&mut s, 'x');
                push_char(&mut s, '-');
                s.append(u.as_str());
                s
            },
        }
    }
}

impl Default for Lang {
    /// `en-US`
    fn default() -> (r: Self)
        ensures
            r == en_us_spec(),
    {
        Lang::en_us()
    }
}

/// The file fallback always ends in `en-US`, begins with the locale asked
/// for, and consults at most three files.
pub proof fn lemma_file_chain_ends_in_en_us(l: Lang)
    ensures
        file_chain(l).len() == file_rank(l) + 1,
        file_chain(l).len() <= 3,
        file_chain(l)[0] == l,
        file_chain(l).last() == en_us_spec(),
    decreases file_rank(l),
{
    lemma_file_next_decreases(l);
    match file_next(l) {
        None => {},
        Some(n) => {
            lemma_file_chain_ends_in_en_us(n);
            lemma_file_next_decreases(n);
            assert(file_chain(l) == seq![l] + file_chain(n));
        },
    }
}


/// A dialect falls back to the main dialect of its language: `pt-PT`,
/// `de-DE`, `fr-FR`, `en-US`, and `zh-CN` for `zh-TW`; never to the
/// language alone, for which there is no locale file.
pub proof fn lemma_dialect_falls_back_to_main_dialect(co: IsoCountry)
    ensures
        co != IsoCountry::PT ==> file_next(Lang::Iso(IsoLang::Portuguese, Some(co))) == Some(
            Lang::Iso(IsoLang::Portuguese, Some(IsoCountry::PT)),
        ),
        co != IsoCountry::DE ==> file_next(Lang::Iso(IsoLang::Deutsch, Some(co))) == Some(
            Lang::Iso(IsoLang::Deutsch, Some(IsoCountry::DE)),
        ),
        co != IsoCountry::FR ==> file_next(Lang::Iso(IsoLang::French, Some(co))) == Some(
            Lang::Iso(IsoLang::French, Some(IsoCountry::FR)),
        ),
        co != IsoCountry::US ==> file_next(Lang::Iso(IsoLang::English, Some(co))) == Some(
            Lang::Iso(IsoLang::English, Some(IsoCountry::US)),
        ),
        file_next(Lang::Iso(IsoLang::Chinese, Some(IsoCountry::TW))) == Some(
            Lang::Iso(IsoLang::Chinese, Some(IsoCountry::CN)),
        ),
{
}

/// Every locale file consulted after the first names a country: the file
/// fallback only ever moves to a full dialect.
pub proof fn lemma_file_chain_names_countries(l: Lang)
    ensures
        forall|i: int| 1 <= i < file_chain(l).len() ==> (#[trigger] file_chain(l)[i] matches Lang::Iso(_, Some(_))),
    decreases file_rank(l),
{
    lemma_file_next_decreases(l);
    match file_next(l) {
        None => {},
        Some(n) => {
            assert(n matches Lang::Iso(_, Some(_)));
            lemma_file_chain_names_countries(n);
            let c = file_chain(l);
            assert(c == seq![l] + file_chain(n));
            lemma_file_chain_ends_in_en_us(n);
            assert forall|i: int| 1 <= i < c.len() implies (#[trigger] c[i] matches Lang::Iso(_, Some(_))) by {
                assert(c[i] == file_chain(n)[i - 1]);
            }
        },
    }
}
} // verus!
