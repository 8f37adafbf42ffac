//! The grammar of `xml:lang` values.
//!
//! `x-` and 1 to 8 alphanumeric characters is an unofficial tag; `i-` and
//! anything is an IANA tag; otherwise 2 or 3 alphabetic characters are an
//! ISO 639 language, optionally followed by `-` and 2 alphabetic
//! characters, an ISO 3166 country. The whole value must be consumed.
//! Lengths in the grammar count UTF-8 bytes, not characters. A length
//! limit that falls inside a character would cut that character in two;
//! such values cannot be read at all, and are reported apart from the
//! values that are not tags.
use vstd::prelude::*;
use crate::lang::{iso_country_of, iso_country_text, iso_lang_of, iso_lang_text, lang_text, IsoCountry, IsoLang, IsoLangV, Lang, LangV, UnknownAttributeValue};
use crate::strings::{byte_offset, chars_of, string_from_chars, utf8_len};

verus! {

/// What `char::is_alphabetic` returns for a character outside ASCII.
pub uninterp spec fn char_is_alphabetic(c: char) -> bool;

/// What `char::is_alphanumeric` returns for a character outside ASCII.
pub uninterp spec fn char_is_alphanumeric(c: char) -> bool;

/// An ASCII letter.
pub open spec fn is_ascii_letter(c: char) -> bool {
    ('a' <= c <= 'z') || ('A' <= c <= 'Z')
}

/// An ASCII digit.
pub open spec fn is_ascii_digit(c: char) -> bool {
    '0' <= c <= '9'
}

/// Whether a character is alphabetic: among ASCII characters exactly the
/// letters; outside ASCII, what `char::is_alphabetic` returns.
pub open spec fn alphabetic(c: char) -> bool {
    if (c as u32) < 0x80 {
        is_ascii_letter(c)
    } else {
        char_is_alphabetic(c)
    }
}

/// Whether a character is alphanumeric: among ASCII characters exactly the
/// letters and digits; outside ASCII, what `char::is_alphanumeric`
/// returns.
pub open spec fn alphanumeric(c: char) -> bool {
    if (c as u32) < 0x80 {
        is_ascii_letter(c) || is_ascii_digit(c)
    } else {
        char_is_alphanumeric(c)
    }
}

/// Whether a character has the Unicode Alphabetic property.
///
/// Trusted: calls `char::is_alphabetic`. Among ASCII characters the
/// Alphabetic property holds of the letters alone (std checks `a`-`z` and
/// `A`-`Z` and looks anything else up only above `\x7f`); outside ASCII the
/// result is named `char_is_alphabetic`.
#[verifier::external_body]
fn is_alphabetic(c: char) -> (r: bool)
    ensures
        r == (if (c as u32) < 0x80 { is_ascii_letter(c) } else { char_is_alphabetic(c) }),
{
    c.is_alphabetic()
}

/// Whether a character has the Unicode Alphabetic or Numeric property.
///
/// Trusted: calls `char::is_alphanumeric`. Among ASCII characters these
/// properties hold of the letters and digits alone; outside ASCII the
/// result is named `char_is_alphanumeric`.
#[verifier::external_body]
fn is_alphanumeric(c: char) -> (r: bool)
    ensures
        r == (if (c as u32) < 0x80 {
            is_ascii_letter(c) || is_ascii_digit(c)
        } else {
            char_is_alphanumeric(c)
        }),
{
    c.is_alphanumeric()
}

/// How many flags at the start are set.
pub open spec fn run_len(p: Seq<bool>) -> nat
    decreases p.len(),
{
    if p.len() == 0 || !p[0] {
        0
    } else {
        1 + run_len(p.drop_first())
    }
}

/// The outcome of taking characters: how many, no match, or a cut that
/// falls inside a character.
pub enum Take {
    Count(nat),
    Fail,
    Panic,
}

/// Cutting after `n` bytes, looking from character `j` on: the number of
/// characters those bytes hold, or `Panic` when byte `n` falls inside a
/// character.
pub open spec fn split_at_byte(cs: Seq<char>, n: nat, j: nat) -> Take
    decreases cs.len() + 1 - j,
{
    if j > cs.len() {
        Take::Panic
    } else if byte_offset(cs, j as int) == n {
        Take::Count(j)
    } else if byte_offset(cs, j as int) > n {
        Take::Panic
    } else {
        split_at_byte(cs, n, j + 1)
    }
}

/// Taking at least `m` and at most `n` bytes of characters whose flag is
/// set: all of the leading run when its bytes number `m` to `n`; the first
/// `n` bytes when the run is longer; no match when it is shorter.
pub open spec fn take_while_m_n(cs: Seq<char>, p: Seq<bool>, m: nat, n: nat) -> Take {
    let k = if run_len(p) <= cs.len() { run_len(p) } else { cs.len() };
    let idx = byte_offset(cs, k as int);
    if idx > n {
        split_at_byte(cs, n, 0)
    } else if idx >= m {
        Take::Count(k)
    } else {
        Take::Fail
    }
}

/// The outcome of one alternative of the grammar: a tag and how many
/// characters it took, no match, or a panic.
pub enum LangParse {
    Parsed(LangV, nat),
    NoMatch,
    Panic,
}

/// `x-` and 1 to 8 bytes of alphanumeric characters.
pub open spec fn parse_unofficial(cs: Seq<char>, alnum: Seq<bool>) -> LangParse {
    if cs.len() >= 2 && cs[0] == 'x' && cs[1] == '-' {
        match take_while_m_n(cs.skip(2), alnum.skip(2), 1, 8) {
            Take::Count(j) => LangParse::Parsed(LangV::Unofficial(cs.skip(2).take(j as int)), 2 + j),
            Take::Fail => LangParse::NoMatch,
            Take::Panic => LangParse::Panic,
        }
    } else {
        LangParse::NoMatch
    }
}

/// `i-` and all that follows.
pub open spec fn parse_iana(cs: Seq<char>) -> LangParse {
    if cs.len() >= 2 && cs[0] == 'i' && cs[1] == '-' {
        LangParse::Parsed(LangV::Iana(cs.skip(2)), cs.len())
    } else {
        LangParse::NoMatch
    }
}

/// 2 or 3 bytes of alphabetic characters, then optionally `-` and 2 bytes
/// of alphabetic characters.
pub open spec fn parse_iso(cs: Seq<char>, alpha: Seq<bool>) -> LangParse {
    match take_while_m_n(cs, alpha, 2, 3) {
        Take::Count(j) => {
            let lang = iso_lang_of(cs.take(j as int));
            let rest = cs.skip(j as int);
            if rest.len() >= 1 && rest[0] == '-' {
                match take_while_m_n(rest.skip(1), alpha.skip((j + 1) as int), 2, 2) {
                    Take::Count(t) => LangParse::Parsed(
                        LangV::Iso(lang, Some(iso_country_of(rest.skip(1).take(t as int)))),
                        j + 1 + t,
                    ),
                    Take::Fail => LangParse::Parsed(LangV::Iso(lang, None), j),
                    Take::Panic => LangParse::Panic,
                }
            } else {
                LangParse::Parsed(LangV::Iso(lang, None), j)
            }
        },
        Take::Fail => LangParse::NoMatch,
        Take::Panic => LangParse::Panic,
    }
}

/// The first alternative that matches: unofficial, IANA, ISO.
pub open spec fn parse_lang(cs: Seq<char>, alpha: Seq<bool>, alnum: Seq<bool>) -> LangParse {
    match parse_unofficial(cs, alnum) {
        LangParse::NoMatch => match parse_iana(cs) {
            LangParse::NoMatch => parse_iso(cs, alpha),
            r => r,
        },
        r => r,
    }
}

/// Reading a whole `xml:lang` value, given for each character whether it
/// is alphabetic and whether it is alphanumeric: the tag when the grammar
/// matches all of it, an error otherwise, and nothing where the grammar
/// would panic.
pub open spec fn lang_of_chars(cs: Seq<char>, alpha: Seq<bool>, alnum: Seq<bool>) -> Option<Result<LangV, ()>> {
    match parse_lang(cs, alpha, alnum) {
        LangParse::Parsed(l, k) => Some(if k == cs.len() { Ok(l) } else { Err(()) }),
        LangParse::NoMatch => Some(Err(())),
        LangParse::Panic => None,
    }
}

/// Whether each character is alphabetic.
pub open spec fn alpha_flags(cs: Seq<char>) -> Seq<bool> {
    Seq::new(cs.len(), |i: int| alphabetic(cs[i]))
}

/// Whether each character is alphanumeric.
pub open spec fn alnum_flags(cs: Seq<char>) -> Seq<bool> {
    Seq::new(cs.len(), |i: int| alphanumeric(cs[i]))
}

/// Reading an `xml:lang` value: the tag, an error, or nothing where the
/// grammar would panic.
pub open spec fn lang_of_str(s: Seq<char>) -> Option<Result<LangV, ()>> {
    lang_of_chars(s, alpha_flags(s), alnum_flags(s))
}

/// The value of a parse result.
pub open spec fn result_view(r: Option<Result<Lang, ()>>) -> Option<Result<LangV, ()>> {
    match r {
        Some(Ok(l)) => Some(Ok(l@)),
        Some(Err(())) => Some(Err(())),
        None => None,
    }
}

} // verus!

verus! {

proof fn lemma_byte_offset_strict(cs: Seq<char>, i: int, j: int)
    requires
        0 <= i < j <= cs.len(),
    ensures
        byte_offset(cs, i) < byte_offset(cs, j),
    decreases j - i,
{
    if i + 1 < j {
        lemma_byte_offset_strict(cs, i, j - 1);
    }
}

proof fn lemma_run_len_is(p: Seq<bool>, k: int)
    requires
        0 <= k <= p.len(),
        forall|i: int| 0 <= i < k ==> #[trigger] p[i],
        k == p.len() || !p[k],
    ensures
        run_len(p) == k,
    decreases k,
{
    if k > 0 {
        let q = p.drop_first();
        assert forall|i: int| 0 <= i < k - 1 implies #[trigger] q[i] by {
            assert(q[i] == p[i + 1]);
        }
        if k < p.len() {
            assert(q[k - 1] == p[k]);
        }
        lemma_run_len_is(q, k - 1);
    }
}

proof fn lemma_run_len_at_least(p: Seq<bool>, k: int)
    requires
        0 <= k <= p.len(),
        forall|i: int| 0 <= i < k ==> #[trigger] p[i],
    ensures
        run_len(p) >= k,
        run_len(p) <= p.len(),
    decreases k, p.len(),
{
    if k > 0 {
        let q = p.drop_first();
        assert forall|i: int| 0 <= i < k - 1 implies #[trigger] q[i] by {
            assert(q[i] == p[i + 1]);
        }
        lemma_run_len_at_least(q, k - 1);
    } else if p.len() > 0 {
        lemma_run_len_at_least(p.drop_first(), 0);
    }
}

proof fn lemma_split_found(cs: Seq<char>, n: nat, i: nat, j: nat)
    requires
        i <= j <= cs.len(),
        byte_offset(cs, j as int) == n,
    ensures
        split_at_byte(cs, n, i) == Take::Count(j),
    decreases j - i,
{
    if i < j {
        lemma_byte_offset_strict(cs, i as int, j as int);
        lemma_split_found(cs, n, i + 1, j);
    }
}

proof fn lemma_split_between(cs: Seq<char>, n: nat, i: nat, j: nat)
    requires
        i <= j + 1,
        j < cs.len(),
        byte_offset(cs, j as int) < n < byte_offset(cs, (j + 1) as int),
    ensures
        split_at_byte(cs, n, i) == Take::Panic,
    decreases j + 1 - i,
{
    if i <= j {
        if i < j {
            lemma_byte_offset_strict(cs, i as int, j as int);
        }
        lemma_split_between(cs, n, i + 1, j);
    }
}

/// `Take` as the parser computes it.
enum TakeOutcome {
    Count(usize),
    Fail,
    Panic,
}

spec fn take_matches(o: TakeOutcome, t: Take) -> bool {
    match (o, t) {
        (TakeOutcome::Count(a), Take::Count(b)) => a == b,
        (TakeOutcome::Fail, Take::Fail) => true,
        (TakeOutcome::Panic, Take::Panic) => true,
        _ => false,
    }
}

fn char_utf8_len(c: char) -> (r: usize)
    ensures
        r == utf8_len(c),
{
    let u = c as u32;
    if u < 0x80 {
        1
    } else if u < 0x800 {
        2
    } else if u < 0x10000 {
        3
    } else {
        4
    }
}

/// `take_while_m_n` on the characters from `from` on.
fn take_while_m_n_at(cs: &Vec<char>, p: &Vec<bool>, from: usize, m: usize, n: usize) -> (r: TakeOutcome)
    requires
        from <= cs@.len(),
        p@.len() == cs@.len(),
        m <= n <= 8,
    ensures
        take_matches(r, take_while_m_n(cs@.skip(from as int), p@.skip(from as int), m as nat, n as nat)),
        r matches TakeOutcome::Count(k) ==> from + k <= cs@.len(),
{
    let ghost sub = cs@.skip(from as int);
    let ghost sp = p@.skip(from as int);
    let mut k = from;
    let mut off: usize = 0;
    while k < cs.len() && p[k] && off <= n
        invariant
            from <= k <= cs@.len(),
            p@.len() == cs@.len(),
            sub == cs@.skip(from as int),
            sp == p@.skip(from as int),
            m <= n <= 8,
            off == byte_offset(sub, k - from),
            off <= n + 4,
            k > from ==> byte_offset(sub, k - from - 1) <= n,
            forall|i: int| 0 <= i < k - from ==> #[trigger] sp[i],
        decreases cs@.len() - k,
    {
        assert(sub[k - from] == cs@[k as int]);
        assert(sp[k - from] == p@[k as int]);
        off = off + char_utf8_len(cs[k]);
        k = k + 1;
    }
    let ghost c = k - from;
    proof {
        lemma_run_len_at_least(sp, c);
    }
    let ghost kk = if run_len(sp) <= sub.len() { run_len(sp) } else { sub.len() };
    if off > n {
        proof {
            if kk > c {
                lemma_byte_offset_strict(sub, c, kk as int);
            }
        }
        let last = char_utf8_len(cs[k - 1]);
        assert(sub[c - 1] == cs@[k - 1]);
        let prev = off - last;
        if prev == n {
            proof {
                lemma_split_found(sub, n as nat, 0, (c - 1) as nat);
            }
            TakeOutcome::Count(k - 1 - from)
        } else {
            proof {
                lemma_split_between(sub, n as nat, 0, (c - 1) as nat);
            }
            TakeOutcome::Panic
        }
    } else {
        proof {
            if k < cs.len() {
                assert(sp[c] == p@[k as int]);
            }
            lemma_run_len_is(sp, c);
        }
        if off >= m {
            TakeOutcome::Count(k - from)
        } else {
            TakeOutcome::Fail
        }
    }
}

/// Whether the characters from `from` to `to` are exactly `a`, `b`.
fn sub_is2(cs: &Vec<char>, from: usize, to: usize, a: char, b: char) -> (r: bool)
    requires
        from <= to <= cs@.len(),
    ensures
        r == (cs@.subrange(from as int, to as int) == seq![a, b]),
{
    let r = to - from == 2 && cs[from] == a && cs[from + 1] == b;
    proof {
        let s = cs@.subrange(from as int, to as int);
        if r {
            assert(s =~= seq![a, b]);
        }
        if s == seq![a, b] {
            assert(s.len() == 2);
            assert(s[0] == a && s[1] == b);
            assert(s[0] == cs@[from as int] && s[1] == cs@[from + 1]);
        }
    }
    r
}

/// Whether the characters from `from` to `to` are exactly `a`, `b`, `c`.
fn sub_is3(cs: &Vec<char>, from: usize, to: usize, a: char, b: char, c: char) -> (r: bool)
    requires
        from <= to <= cs@.len(),
    ensures
        r == (cs@.subrange(from as int, to as int) == seq![a, b, c]),
{
    let r = to - from == 3 && cs[from] == a && cs[from + 1] == b && cs[from + 2] == c;
    proof {
        let s = cs@.subrange(from as int, to as int);
        if r {
            assert(s =~= seq![a, b, c]);
        }
        if s == seq![a, b, c] {
            assert(s.len() == 3);
            assert(s[0] == a && s[1] == b && s[2] == c);
            assert(s[0] == cs@[from as int] && s[1] == cs@[from + 1] && s[2] == cs@[from + 2]);
        }
    }
    r
}

impl IsoLang {
    /// The language that the characters from `from` to `to` name.
    pub fn from_chars(cs: &Vec<char>, from: usize, to: usize) -> (r: IsoLang)
        requires
            from <= to <= cs@.len(),
        ensures
            r@ == iso_lang_of(cs@.subrange(from as int, to as int)),
    {
        if sub_is2(cs, from, to, 'e', 'n') || sub_is3(cs, from, to, 'e', 'n', 'g') {
            IsoLang::English
        } else if sub_is2(cs, from, to, 'd', 'e') || sub_is3(cs, from, to, 'd', 'e', 'u') {
            IsoLang::Deutsch
        } else if sub_is2(cs, from, to, 'p', 't') || sub_is3(cs, from, to, 'p', 'o', 'r') {
            IsoLang::Portuguese
        } else if sub_is2(cs, from, to, 'z', 'h') || sub_is3(cs, from, to, 'z', 'h', 'o') {
            IsoLang::Chinese
        } else if sub_is2(cs, from, to, 'f', 'r') || sub_is3(cs, from, to, 'f', 'r', 'a') {
            IsoLang::French
        } else if sub_is2(cs, from, to, 'e', 's') || sub_is3(cs, from, to, 'e', 's', 'p') {
            IsoLang::Spanish
        } else if sub_is2(cs, from, to, 'j', 'a') || sub_is3(cs, from, to, 'j', 'p', 'n') {
            IsoLang::Japanese
        } else if sub_is2(cs, from, to, 'a', 'r') || sub_is3(cs, from, to, 'a', 'r', 'a') {
            IsoLang::Arabic
        } else {
            IsoLang::Other(string_from_chars(cs, from, to))
        }
    }

    /// The language a code names: `en` or `eng` is English and so on; any
    /// other code is `Other`.
    pub fn from_str(s: &str) -> (r: IsoLang)
        ensures
            r@ == iso_lang_of(s@),
    {
        let cs = chars_of(s);
        assert(cs@.subrange(0, cs@.len() as int) == cs@);
        IsoLang::from_chars(&cs, 0, cs.len())
    }
}

impl IsoCountry {
    /// The country that the characters from `from` to `to` name.
    pub fn from_chars(cs: &Vec<char>, from: usize, to: usize) -> (r: IsoCountry)
        requires
            from <= to <= cs@.len(),
        ensures
            r@ == iso_country_of(cs@.subrange(from as int, to as int)),
    {
        if sub_is2(cs, from, to, 'U', 'S') {
            IsoCountry::US
        } else if sub_is2(cs, from, to, 'G', 'B') {
            IsoCountry::GB
        } else if sub_is2(cs, from, to, 'A', 'U') {
            IsoCountry::AU
        } else if sub_is2(cs, from, to, 'D', 'E') {
            IsoCountry::DE
        } else if sub_is2(cs, from, to, 'A', 'T') {
            IsoCountry::AT
        } else if sub_is2(cs, from, to, 'C', 'H') {
            IsoCountry::CH
        } else if sub_is2(cs, from, to, 'C', 'N') {
            IsoCountry::CN
        } else if sub_is2(cs, from, to, 'T', 'W') {
            IsoCountry::TW
        } else if sub_is2(cs, from, to, 'P', 'T') {
            IsoCountry::PT
        } else if sub_is2(cs, from, to, 'B', 'R') {
            IsoCountry::BR
        } else if sub_is2(cs, from, to, 'J', 'P') {
            IsoCountry::JP
        } else if sub_is2(cs, from, to, 'E', 'S') {
            IsoCountry::ES
        } else if sub_is2(cs, from, to, 'F', 'R') {
            IsoCountry::FR
        } else if sub_is2(cs, from, to, 'C', 'A') {
            IsoCountry::CA
        } else {
            IsoCountry::Other(string_from_chars(cs, from, to))
        }
    }

    /// The country a code names: the name of a known country is that
    /// country; any other code is `Other`.
    pub fn from_str(s: &str) -> (r: IsoCountry)
        ensures
            r@ == iso_country_of(s@),
    {
        let cs = chars_of(s);
        assert(cs@.subrange(0, cs@.len() as int) == cs@);
        IsoCountry::from_chars(&cs, 0, cs.len())
    }
}

} // verus!

verus! {

/// `LangParse` as the parser computes it.
enum ParseOutcome {
    Parsed(Lang, usize),
    NoMatch,
    Panic,
}

spec fn parse_matches(o: ParseOutcome, s: LangParse) -> bool {
    match (o, s) {
        (ParseOutcome::Parsed(l, k), LangParse::Parsed(lv, kk)) => l@ == lv && k == kk,
        (ParseOutcome::NoMatch, LangParse::NoMatch) => true,
        (ParseOutcome::Panic, LangParse::Panic) => true,
        _ => false,
    }
}

fn parse_unofficial_chars(cs: &Vec<char>, alnum: &Vec<bool>) -> (r: ParseOutcome)
    requires
        alnum@.len() == cs@.len(),
    ensures
        parse_matches(r, parse_unofficial(cs@, alnum@)),
{
    if cs.len() >= 2 && cs[0] == 'x' && cs[1] == '-' {
        match take_while_m_n_at(cs, alnum, 2, 1, 8) {
            TakeOutcome::Count(j) => {
                let s = string_from_chars(cs, 2, 2 + j);
                assert(cs@.skip(2).take(j as int) == cs@.subrange(2, 2 + j));
                ParseOutcome::Parsed(Lang::Unofficial(s), 2 + j)
            },
            TakeOutcome::Fail => ParseOutcome::NoMatch,
            TakeOutcome::Panic => ParseOutcome::Panic,
        }
    } else {
        ParseOutcome::NoMatch
    }
}

fn parse_iana_chars(cs: &Vec<char>) -> (r: ParseOutcome)
    ensures
        parse_matches(r, parse_iana(cs@)),
{
    if cs.len() >= 2 && cs[0] == 'i' && cs[1] == '-' {
        let s = string_from_chars(cs, 2, cs.len());
        assert(cs@.skip(2) == cs@.subrange(2, cs@.len() as int));
        ParseOutcome::Parsed(Lang::Iana(s), cs.len())
    } else {
        ParseOutcome::NoMatch
    }
}

fn parse_iso_chars(cs: &Vec<char>, alpha: &Vec<bool>) -> (r: ParseOutcome)
    requires
        alpha@.len() == cs@.len(),
    ensures
        parse_matches(r, parse_iso(cs@, alpha@)),
{
    assert(cs@.skip(0) == cs@);
    assert(alpha@.skip(0) == alpha@);
    match take_while_m_n_at(cs, alpha, 0, 2, 3) {
        TakeOutcome::Count(j) => {
            let lang = IsoLang::from_chars(cs, 0, j);
            assert(cs@.take(j as int) == cs@.subrange(0, j as int));
            let ghost rest = cs@.skip(j as int);
            if j < cs.len() && cs[j] == '-' {
                assert(rest[0] == cs@[j as int]);
                assert(rest.skip(1) == cs@.skip(j + 1));
                match take_while_m_n_at(cs, alpha, j + 1, 2, 2) {
                    TakeOutcome::Count(t) => {
                        let country = IsoCountry::from_chars(cs, j + 1, j + 1 + t);
                        assert(rest.skip(1).take(t as int) == cs@.subrange(j + 1, j + 1 + t));
                        ParseOutcome::Parsed(Lang::Iso(lang, Some(country)), j + 1 + t)
                    },
                    TakeOutcome::Fail => ParseOutcome::Parsed(Lang::Iso(lang, None), j),
                    TakeOutcome::Panic => ParseOutcome::Panic,
                }
            } else {
                proof {
                    if rest.len() >= 1 {
                        assert(rest[0] == cs@[j as int]);
                    }
                }
                ParseOutcome::Parsed(Lang::Iso(lang, None), j)
            }
        },
        TakeOutcome::Fail => ParseOutcome::NoMatch,
        TakeOutcome::Panic => ParseOutcome::Panic,
    }
}

/// Reads a whole `xml:lang` value from its characters and, for each
/// character, whether it is alphabetic and whether it is alphanumeric:
/// the tag when the grammar matches all of it, `Err` otherwise, and `None`
/// where the grammar would panic.
pub fn parse_lang_chars(cs: &Vec<char>, alpha: &Vec<bool>, alnum: &Vec<bool>) -> (r: Option<Result<Lang, ()>>)
    requires
        alpha@.len() == cs@.len(),
        alnum@.len() == cs@.len(),
    ensures
        result_view(r) == lang_of_chars(cs@, alpha@, alnum@),
{
    let outcome = match parse_unofficial_chars(cs, alnum) {
        ParseOutcome::NoMatch => match parse_iana_chars(cs) {
            ParseOutcome::NoMatch => parse_iso_chars(cs, alpha),
            r => r,
        },
        r => r,
    };
    match outcome {
        ParseOutcome::Parsed(l, k) => {
            if k == cs.len() {
                Some(Ok(l))
            } else {
                Some(Err(()))
            }
        },
        ParseOutcome::NoMatch => Some(Err(())),
        ParseOutcome::Panic => None,
    }
}

impl Lang {
    /// Reads an `xml:lang` value: the tag when the grammar matches all of
    /// it, `Err` otherwise, and `None` for the values on which the grammar
    /// would panic (a length limit falling inside a character).
    pub fn try_from_str(input: &str) -> (r: Option<Result<Lang, ()>>)
        ensures
            result_view(r) == lang_of_str(input@),
    {
        let cs = chars_of(input);
        let mut alpha: Vec<bool> = Vec::new();
        let mut alnum: Vec<bool> = Vec::new();
        let mut i: usize = 0;
        while i < cs.len()
            invariant
                i <= cs@.len(),
                alpha@ == alpha_flags(cs@).subrange(0, i as int),
                alnum@ == alnum_flags(cs@).subrange(0, i as int),
            decreases cs.len() - i,
        {
            alpha.push(is_alphabetic(cs[i]));
            alnum.push(is_alphanumeric(cs[i]));
            assert(alpha_flags(cs@).subrange(0, i + 1) == alpha_flags(cs@).subrange(0, i as int).push(
                alphabetic(cs@[i as int]),
            ));
            assert(alnum_flags(cs@).subrange(0, i + 1) == alnum_flags(cs@).subrange(0, i as int).push(
                alphanumeric(cs@[i as int]),
            ));
            i = i + 1;
        }
        assert(alpha_flags(cs@).subrange(0, cs@.len() as int) == alpha_flags(cs@));
        assert(alnum_flags(cs@).subrange(0, cs@.len() as int) == alnum_flags(cs@));
        parse_lang_chars(&cs, &alpha, &alnum)
    }

    /// Reads an `xml:lang` value: the tag when the grammar matches all of
    /// it, `Err` otherwise.
    pub fn from_str(input: &str) -> (r: Result<Lang, ()>)
        requires
            lang_of_str(input@) is Some,
        ensures
            result_view(Some(r)) == lang_of_str(input@),
    {
        match Lang::try_from_str(input) {
            Some(r) => r,
            None => Err(()),
        }
    }

    /// Reads an `xml:lang` attribute; a value that is not a tag is an
    /// unknown attribute value.
    pub fn get_attr(s: &str) -> (r: Result<Lang, UnknownAttributeValue>)
        requires
            lang_of_str(s@) is Some,
        ensures
            match r {
                Ok(l) => lang_of_str(s@) == Some(Ok::<LangV, ()>(l@)),
                Err(e) => lang_of_str(s@) == Some(Err::<LangV, ()>(())) && e.value@ == s@,
            },
    {
        match Lang::from_str(s) {
            Ok(l) => Ok(l),
            Err(()) => Err(UnknownAttributeValue { value: String::from_str(s) }),
        }
    }

    /// Reads an `xml:lang` attribute on any value: `None` for the values
    /// on which the grammar would panic (a length limit falling inside a
    /// character), otherwise what `get_attr` gives.
    pub fn try_get_attr(s: &str) -> (r: Option<Result<Lang, UnknownAttributeValue>>)
        ensures
            lang_of_str(s@) is None <==> r is None,
            r matches Some(Ok(l)) ==> lang_of_str(s@) == Some(Ok::<LangV, ()>(l@)),
            r matches Some(Err(e)) ==> lang_of_str(s@) == Some(Err::<LangV, ()>(())) && e.value@ == s@,
    {
        match Lang::try_from_str(s) {
            None => None,
            Some(_) => Some(Lang::get_attr(s)),
        }
    }
}


/// Flags that agree with what std documents of ASCII characters: letters
/// are alphabetic and alphanumeric, digits alphanumeric only, and `-`
/// neither.
pub open spec fn flags_fit(cs: Seq<char>, alpha: Seq<bool>, alnum: Seq<bool>) -> bool {
    &&& alpha.len() == cs.len()
    &&& alnum.len() == cs.len()
    &&& forall|i: int| 0 <= i < cs.len() ==> {
        &&& ('a' <= #[trigger] cs[i] <= 'z' || 'A' <= cs[i] <= 'Z') ==> alpha[i] && alnum[i]
        &&& ('0' <= cs[i] <= '9') ==> !alpha[i] && alnum[i]
        &&& cs[i] == '-' ==> !alpha[i] && !alnum[i]
    }
}

/// Whether the flags from `from` to `to` are all set.
pub open spec fn all_set(p: Seq<bool>, from: int, to: int) -> bool {
    forall|i: int| from <= i < to ==> #[trigger] p[i]
}

/// The tags whose text the grammar reads back as the same tag: an ISO
/// language of 2 or 3 bytes of alphabetic characters that names itself,
/// with no country or a country of 2 bytes of alphabetic characters that
/// names itself; any IANA tag; an unofficial tag of 1 to 8 bytes of
/// alphanumeric characters.
pub open spec fn reads_back(l: LangV, alpha: Seq<bool>, alnum: Seq<bool>) -> bool {
    match l {
        LangV::Iso(lang, c) => {
            let a = iso_lang_text(lang);
            &&& 2 <= byte_offset(a, a.len() as int) <= 3
            &&& all_set(alpha, 0, a.len() as int)
            &&& iso_lang_of(a) == lang
            &&& match c {
                None => true,
                Some(c) => {
                    let b = iso_country_text(c);
                    &&& byte_offset(b, b.len() as int) == 2
                    &&& all_set(alpha, a.len() + 1int, a.len() + 1int + b.len())
                    &&& iso_country_of(b) == c
                },
            }
        },
        LangV::Iana(_) => true,
        LangV::Unofficial(s) => {
            &&& 1 <= byte_offset(s, s.len() as int) <= 8
            &&& all_set(alnum, 2, 2int + s.len())
        },
    }
}

proof fn lemma_byte_offset_same_prefix(cs: Seq<char>, ds: Seq<char>, k: int)
    requires
        0 <= k <= cs.len(),
        k <= ds.len(),
        forall|i: int| 0 <= i < k ==> cs[i] == ds[i],
    ensures
        byte_offset(cs, k) == byte_offset(ds, k),
    decreases k,
{
    if k > 0 {
        lemma_byte_offset_same_prefix(cs, ds, k - 1);
    }
}

proof fn lemma_take_whole_run(cs: Seq<char>, p: Seq<bool>, k: int, m: nat, n: nat)
    requires
        0 <= k <= cs.len(),
        p.len() == cs.len(),
        all_set(p, 0, k),
        k == cs.len() || !p[k],
        m <= byte_offset(cs, k) <= n,
    ensures
        take_while_m_n(cs, p, m, n) == Take::Count(k as nat),
{
    assert forall|i: int| 0 <= i < k implies #[trigger] p[i] by {}
    lemma_run_len_is(p, k);
}

proof fn lemma_first_char_one_byte(cs: Seq<char>)
    requires
        cs.len() >= 1,
        (cs[0] as u32) < 0x80,
    ensures
        byte_offset(cs, 1) == 1,
{
    assert(byte_offset(cs, 1) == byte_offset(cs, 0) + utf8_len(cs[0]));
}

/// The text of a tag reads back as the same tag, for every tag the
/// grammar can produce that way (see `reads_back`). So `to_string` and
/// `from_str` undo each other on such tags.
pub proof fn lemma_lang_text_reads_back(l: LangV, alpha: Seq<bool>, alnum: Seq<bool>)
    requires
        flags_fit(lang_text(l), alpha, alnum),
        reads_back(l, alpha, alnum),
    ensures
        lang_of_chars(lang_text(l), alpha, alnum) == Some(Ok::<LangV, ()>(l)),
{
    let cs = lang_text(l);
    match l {
        LangV::Iana(s) => {
            assert(cs[0] == 'i');
            assert(cs.skip(2) =~= s);
        },
        LangV::Unofficial(s) => {
            let sub = cs.skip(2);
            let sp = alnum.skip(2);
            assert(sub =~= s);
            assert(cs[0] == 'x' && cs[1] == '-');
            assert forall|i: int| 0 <= i < s.len() implies #[trigger] sp[i] by {
                assert(sp[i] == alnum[i + 2]);
            }
            lemma_take_whole_run(sub, sp, s.len() as int, 1, 8);
            assert(sub.take(s.len() as int) =~= s);
        },
        LangV::Iso(lang, c) => {
            let a = iso_lang_text(lang);
            let k = a.len() as int;
            assert(k >= 1) by {
                if k == 0 {
                    assert(byte_offset(a, 0) == 0);
                }
            }
            assert(cs[0] == a[0]);
            assert(alpha[0]);
            // The text does not begin like an unofficial or an IANA tag.
            if cs[0] == 'x' || cs[0] == 'i' {
                lemma_first_char_one_byte(a);
                if k == 1 {
                    assert(false);
                }
                assert(cs[1] == a[1]);
                assert(alpha[1]);
            }
            assert forall|i: int| 0 <= i < k implies cs[i] == a[i] by {}
            lemma_byte_offset_same_prefix(cs, a, k);
            match c {
                None => {
                    assert(cs =~= a);
                    lemma_take_whole_run(cs, alpha, k, 2, 3);
                    assert(cs.take(k) =~= a);
                },
                Some(co) => {
                    let b = iso_country_text(co);
                    assert(cs[k] == '-');
                    lemma_take_whole_run(cs, alpha, k, 2, 3);
                    assert(cs.take(k) =~= a);
                    let rest = cs.skip(k);
                    assert(rest[0] == '-');
                    let sub = rest.skip(1);
                    let sp = alpha.skip(k + 1);
                    assert(sub =~= b);
                    assert forall|i: int| 0 <= i < b.len() implies #[trigger] sp[i] by {
                        assert(sp[i] == alpha[i + k + 1]);
                    }
                    lemma_take_whole_run(sub, sp, b.len() as int, 2, 2);
                    assert(sub.take(b.len() as int) =~= b);
                },
            }
        },
    }
}


proof fn lemma_run_len_prefix(p: Seq<bool>, i: int)
    requires
        0 <= i < run_len(p),
    ensures
        p[i],
        run_len(p) <= p.len(),
    decreases p.len(),
{
    if i > 0 {
        let q = p.drop_first();
        lemma_run_len_prefix(q, i - 1);
        assert(q[i - 1] == p[i]);
    } else if p.len() > 0 && p[0] {
        if run_len(p.drop_first()) > 0 {
            lemma_run_len_prefix(p.drop_first(), 0);
        }
    }
}

proof fn lemma_split_count(cs: Seq<char>, n: nat, i: nat, j: nat)
    requires
        split_at_byte(cs, n, i) == Take::Count(j),
    ensures
        i <= j <= cs.len(),
        byte_offset(cs, j as int) == n,
    decreases cs.len() + 1 - i,
{
    if i <= cs.len() && byte_offset(cs, i as int) < n {
        lemma_split_count(cs, n, i + 1, j);
    }
}

/// What a successful take gives: a run of set flags whose bytes number
/// `m` to `n`.
proof fn lemma_take_count(cs: Seq<char>, p: Seq<bool>, m: nat, n: nat, j: nat)
    requires
        p.len() == cs.len(),
        m <= n,
        take_while_m_n(cs, p, m, n) == Take::Count(j),
    ensures
        j <= cs.len(),
        all_set(p, 0, j as int),
        m <= byte_offset(cs, j as int) <= n,
{
    let k = if run_len(p) <= cs.len() { run_len(p) } else { cs.len() };
    let idx = byte_offset(cs, k as int);
    if idx > n {
        lemma_split_count(cs, n, 0, j);
        if j >= k {
            if j > k {
                lemma_byte_offset_strict(cs, k as int, j as int);
            }
            assert(false);
        }
    }
    assert forall|i: int| 0 <= i < j implies #[trigger] p[i] by {
        lemma_run_len_prefix(p, i);
    }
}

proof fn lemma_ascii_pair_bytes(a: Seq<char>)
    requires
        a.len() == 2,
        (a[0] as u32) < 0x80,
        (a[1] as u32) < 0x80,
    ensures
        byte_offset(a, 2) == 2,
{
    assert(byte_offset(a, 1) == byte_offset(a, 0) + utf8_len(a[0]));
    assert(byte_offset(a, 2) == byte_offset(a, 1) + utf8_len(a[1]));
}

/// The code of a known language is two ASCII letters that name it again.
proof fn lemma_known_lang_text(lang: IsoLangV)
    requires
        !(lang is Other),
    ensures
        iso_lang_text(lang).len() == 2,
        forall|i: int| 0 <= i < 2 ==> is_ascii_letter(#[trigger] iso_lang_text(lang)[i])
            && (iso_lang_text(lang)[i] as u32) < 0x80,
        byte_offset(iso_lang_text(lang), 2) == 2,
        iso_lang_of(iso_lang_text(lang)) == lang,
{
    let a = iso_lang_text(lang);
    lemma_ascii_pair_bytes(a);
}

/// A country code names the country whose code it is.
proof fn lemma_country_text_of(u: Seq<char>)
    ensures
        iso_country_text(iso_country_of(u)) == u,
{
}

proof fn lemma_flags_fit_own(t: Seq<char>)
    ensures
        flags_fit(t, alpha_flags(t), alnum_flags(t)),
{
    let a = alpha_flags(t);
    let n = alnum_flags(t);
    assert forall|i: int| 0 <= i < t.len() implies {
        &&& ('a' <= #[trigger] t[i] <= 'z' || 'A' <= t[i] <= 'Z') ==> a[i] && n[i]
        &&& ('0' <= t[i] <= '9') ==> !a[i] && n[i]
        &&& t[i] == '-' ==> !a[i] && !n[i]
    } by {
        assert(a[i] == alphabetic(t[i]));
        assert(n[i] == alphanumeric(t[i]));
    }
}

proof fn lemma_unofficial_reads_back(s: Seq<char>, l: LangV)
    requires
        lang_of_str(s) == Some(Ok::<LangV, ()>(l)),
        parse_unofficial(s, alnum_flags(s)) is Parsed,
    ensures
        reads_back(l, alpha_flags(lang_text(l)), alnum_flags(lang_text(l))),
{
    let alnum = alnum_flags(s);
    let t = lang_text(l);
    let tn = alnum_flags(t);
    let sub = s.skip(2);
    let sp = alnum.skip(2);
    if let Take::Count(j) = take_while_m_n(sub, sp, 1, 8) {
        lemma_take_count(sub, sp, 1, 8, j);
        let u = sub.take(j as int);
        assert(u =~= sub);
        assert(l == LangV::Unofficial(u));
        assert forall|i: int| 2 <= i < 2 + u.len() implies #[trigger] tn[i] by {
            assert(t[i] == u[i - 2]);
            assert(u[i - 2] == s[i]);
            assert(sp[i - 2] == alnum[i]);
        }
    }
}

/// The language part of an ISO tag read from `s`, where the language took
/// the first `j` characters.
proof fn lemma_iso_lang_part(s: Seq<char>, j: nat)
    requires
        take_while_m_n(s, alpha_flags(s), 2, 3) == Take::Count(j),
    ensures
        ({
            let lang = iso_lang_of(s.take(j as int));
            let a = iso_lang_text(lang);
            &&& 2 <= byte_offset(a, a.len() as int) <= 3
            &&& forall|i: int| 0 <= i < a.len() ==> #[trigger] alphabetic(a[i])
            &&& iso_lang_of(a) == lang
        }),
{
    let alpha = alpha_flags(s);
    lemma_take_count(s, alpha, 2, 3, j);
    let x = s.take(j as int);
    let lang = iso_lang_of(x);
    let a = iso_lang_text(lang);
    lemma_byte_offset_same_prefix(x, s, j as int);
    if lang is Other {
        assert(a == x);
        assert forall|i: int| 0 <= i < a.len() implies #[trigger] alphabetic(a[i]) by {
            assert(x[i] == s[i]);
            assert(alpha[i] == alphabetic(s[i]));
        }
    } else {
        lemma_known_lang_text(lang);
    }
}

proof fn lemma_iso_reads_back(s: Seq<char>, l: LangV)
    requires
        lang_of_str(s) == Some(Ok::<LangV, ()>(l)),
        parse_unofficial(s, alnum_flags(s)) is NoMatch,
        parse_iana(s) is NoMatch,
    ensures
        reads_back(l, alpha_flags(lang_text(l)), alnum_flags(lang_text(l))),
{
    let alpha = alpha_flags(s);
    let t = lang_text(l);
    let ta = alpha_flags(t);
    if let Take::Count(j) = take_while_m_n(s, alpha, 2, 3) {
        lemma_iso_lang_part(s, j);
        let lang = iso_lang_of(s.take(j as int));
        let a = iso_lang_text(lang);
        let rest = s.skip(j as int);
        if rest.len() >= 1 && rest[0] == '-' {
            let sub = rest.skip(1);
            let sp = alpha.skip((j + 1) as int);
            if let Take::Count(tc) = take_while_m_n(sub, sp, 2, 2) {
                lemma_take_count(sub, sp, 2, 2, tc);
                let u = sub.take(tc as int);
                assert(u =~= sub);
                let co = iso_country_of(u);
                lemma_country_text_of(u);
                assert(l == LangV::Iso(lang, Some(co)));
                assert(t == a + seq!['-'] + u);
                assert forall|i: int| 0 <= i < a.len() implies #[trigger] ta[i] by {
                    assert(t[i] == a[i]);
                }
                assert forall|i: int| a.len() + 1 <= i < a.len() + 1 + u.len() implies #[trigger] ta[i] by {
                    let k = i - a.len() - 1;
                    assert(t[i] == u[k]);
                    assert(u[k] == s[j + 1 + k]);
                    assert(sp[k] == alpha[j + 1 + k]);
                }
            }
        } else {
            assert(l == LangV::Iso(lang, None));
            assert forall|i: int| 0 <= i < a.len() implies #[trigger] ta[i] by {
                assert(t[i] == a[i]);
            }
        }
    }
}

/// Every tag read from a value reads back from its own text as the same
/// tag: writing a parsed tag with `to_string` and reading it with
/// `from_str` gives the tag again (`deu-AT` reads as German in Austria,
/// written `de-AT`, which reads as German in Austria).
pub proof fn lemma_parsed_tag_reads_back(s: Seq<char>, l: LangV)
    requires
        lang_of_str(s) == Some(Ok::<LangV, ()>(l)),
    ensures
        lang_of_str(lang_text(l)) == Some(Ok::<LangV, ()>(l)),
{
    let t = lang_text(l);
    lemma_flags_fit_own(t);
    match parse_unofficial(s, alnum_flags(s)) {
        LangParse::Parsed(_, _) => lemma_unofficial_reads_back(s, l),
        LangParse::NoMatch => {
            if parse_iana(s) is NoMatch {
                lemma_iso_reads_back(s, l);
            }
        },
        LangParse::Panic => {},
    }
    lemma_lang_text_reads_back(l, alpha_flags(t), alnum_flags(t));
}

} // verus!
