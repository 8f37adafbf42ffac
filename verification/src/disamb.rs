//! Disambiguation: year suffixes, whether a cite's tokens still match more
//! than one reference, and which disambiguation pass runs next.
use vstd::prelude::*;
use crate::ir::{token_eq, DisambToken, DisambTokenV, IrState, IR};
use crate::output::{affixed, affixed_spec, formatting_or_default, or_default_formatting, OutputFormat};
use crate::strings::{push_char, str_eq};
use crate::style::{Citation, GivenNameDisambiguationRule, Layout};

verus! {

/// The letter for `k`, from `a` (0) to `z` (25).
pub open spec fn letter(k: nat) -> char {
    (('a' as u32) + k) as char
}

/// The bijective base-26 numeral of `n` in the letters `a` to `z`: 1 is
/// `a`, 26 is `z`, 27 is `aa`; 0 is the empty string.
pub open spec fn bijective_26(n: nat) -> Seq<char>
    decreases n,
{
    if n == 0 {
        Seq::empty()
    } else {
        bijective_26(((n - 1) as nat) / 26).push(letter(((n - 1) as nat) % 26))
    }
}

/// The number a bijective base-26 numeral stands for.
pub open spec fn from_bijective_26(s: Seq<char>) -> nat
    decreases s.len(),
{
    if s.len() == 0 {
        0
    } else {
        from_bijective_26(s.drop_last()) * 26 + ((s.last() as u32) - ('a' as u32) + 1) as nat
    }
}

/// Reading a numeral back gives the number it was written for.
pub proof fn lemma_bijective_26_roundtrip(n: nat)
    ensures
        from_bijective_26(bijective_26(n)) == n,
    decreases n,
{
    if n > 0 {
        let m = ((n - 1) as nat) / 26;
        let k = ((n - 1) as nat) % 26;
        lemma_bijective_26_roundtrip(m);
        let s = bijective_26(n);
        assert(s.drop_last() == bijective_26(m));
        assert(s.last() == letter(k));
        assert(((letter(k) as u32) - ('a' as u32) + 1) == k + 1);
        vstd::arithmetic::div_mod::lemma_fundamental_div_mod((n - 1) as int, 26);
        assert(m * 26 + k + 1 == n) by (nonlinear_arith)
            requires
                (n - 1) == 26 * m + k,
        ;
    }
}

/// Different numbers have different numerals, so a year suffix names one
/// reference.
pub proof fn lemma_bijective_26_injective(a: nat, b: nat)
    ensures
        bijective_26(a) == bijective_26(b) ==> a == b,
{
    lemma_bijective_26_roundtrip(a);
    lemma_bijective_26_roundtrip(b);
}

fn push_bijective_26(s: &mut String, n: u32)
    ensures
        final(s)@ == old(s)@ + bijective_26(n as nat),
    decreases n,
{
    if n > 0 {
        let m = (n - 1) / 26;
        let k = (n - 1) % 26;
        push_bijective_26(s, m);
        let c = ((97 + k) as u8) as char;
        assert(c == letter(k as nat));
        push_char(s, c);
        assert(bijective_26(n as nat) == bijective_26(m as nat).push(letter(k as nat)));
    } else {
        assert(bijective_26(0) == Seq::<char>::empty());
    }
}

/// The year suffix for the `n`th reference that gets one: `a`, `b`, ...,
/// `z`, `aa`, ...
pub fn to_bijective_base_26(n: u32) -> (r: String)
    ensures
        r@ == bijective_26(n as nat),
{
    let mut s = String::new();
    push_bijective_26(&mut s, n);
    s
}

} // verus!

verus! {

/// The strings of `v`, by value.
pub open spec fn str_views(v: Seq<String>) -> Seq<Seq<char>> {
    v.map_values(|s: String| s@)
}

/// Whether `v` holds a string equal to `s`.
pub fn contains_str(v: &Vec<String>, s: &str) -> (r: bool)
    ensures
        r == str_views(v@).contains(s@),
{
    let mut i: usize = 0;
    while i < v.len()
        invariant
            i <= v@.len(),
            forall|j: int| 0 <= j < i ==> v@[j]@ != s@,
        decreases v.len() - i,
    {
        if str_eq(v[i].as_str(), s) {
            assert(str_views(v@)[i as int] == s@);
            return true;
        }
        i = i + 1;
    }
    assert forall|j: int| 0 <= j < str_views(v@).len() implies str_views(v@)[j] != s@ by {}
    false
}

/// The references in order of first occurrence, each once.
pub open spec fn first_occurrences(s: Seq<Seq<char>>) -> Seq<Seq<char>>
    decreases s.len(),
{
    if s.len() == 0 {
        Seq::empty()
    } else {
        let d = first_occurrences(s.drop_last());
        if d.contains(s.last()) {
            d
        } else {
            d.push(s.last())
        }
    }
}

/// The references of the cites that are still ambiguous, in cite order.
pub open spec fn ambiguous_refs(cites: Seq<(String, bool)>) -> Seq<Seq<char>>
    decreases cites.len(),
{
    if cites.len() == 0 {
        Seq::empty()
    } else {
        let rest = ambiguous_refs(cites.drop_last());
        if cites.last().1 {
            rest
        } else {
            rest.push(cites.last().0@)
        }
    }
}

/// The numeral of the `i`th year suffix (counting from 0).
pub open spec fn suffix_numeral(i: int) -> Seq<char> {
    bijective_26((i + 1) as nat)
}

/// The year suffix of each reference that gets one, numbered from 1 (`a`)
/// in order of the reference's first ambiguous cite.
pub struct YearSuffixes {
    entries: Vec<(String, u32)>,
}

impl YearSuffixes {
    /// The references, in suffix order.
    pub closed spec fn refs(&self) -> Seq<Seq<char>> {
        self.entries@.map_values(|e: (String, u32)| e.0@)
    }

    /// The references are distinct, and the `i`th has suffix number `i + 1`.
    pub closed spec fn wf(&self) -> bool {
        &&& self.refs().no_duplicates()
        &&& forall|i: int| 0 <= i < self.entries@.len() ==> #[trigger] self.entries@[i].1 == i + 1
    }

    /// The suffix number of a reference, if it has one.
    pub open spec fn suffix_of(&self, ref_id: Seq<char>) -> Option<nat> {
        if self.refs().contains(ref_id) {
            Some((self.refs().index_of(ref_id) + 1) as nat)
        } else {
            None
        }
    }

    /// No reference has a suffix.
    pub fn new() -> (r: YearSuffixes)
        ensures
            r.wf(),
            r.refs() == Seq::<Seq<char>>::empty(),
    {
        let r = YearSuffixes { entries: Vec::new() };
        assert(r.refs() =~= Seq::<Seq<char>>::empty());
        r
    }

    /// How many references have a suffix.
    pub fn len(&self) -> (r: usize)
        ensures
            r == self.refs().len(),
    {
        self.entries.len()
    }

    /// The suffix number of a reference, if it has one.
    pub fn get(&self, ref_id: &str) -> (r: Option<u32>)
        requires
            self.wf(),
        ensures
            match r {
                Some(n) => self.suffix_of(ref_id@) == Some(n as nat),
                None => self.suffix_of(ref_id@) is None,
            },
    {
        let mut i: usize = 0;
        while i < self.entries.len()
            invariant
                self.wf(),
                i <= self.entries@.len(),
                forall|j: int| 0 <= j < i ==> self.refs()[j] != ref_id@,
            decreases self.entries.len() - i,
        {
            if str_eq(self.entries[i].0.as_str(), ref_id) {
                proof {
                    assert(self.refs()[i as int] == ref_id@);
                    self.refs().index_of_first_ensures(ref_id@);
                    lemma_index_of_unique(self.refs(), ref_id@, i as int);
                }
                return Some(self.entries[i].1);
            }
            i = i + 1;
        }
        assert(!self.refs().contains(ref_id@));
        None
    }

    /// The reference whose suffix numeral is `s`, if any.
    pub open spec fn owner_of(&self, s: Seq<char>) -> Option<Seq<char>> {
        if exists|i: int| 0 <= i < self.refs().len() && #[trigger] suffix_numeral(i) == s {
            let i = choose|i: int| 0 <= i < self.refs().len() && #[trigger] suffix_numeral(i) == s;
            Some(self.refs()[i])
        } else {
            None
        }
    }

    /// The reference whose suffix numeral is `s`, if any.
    pub fn owner(&self, s: &str) -> (r: Option<&String>)
        requires
            self.wf(),
        ensures
            match r {
                Some(id) => self.owner_of(s@) == Some(id@),
                None => self.owner_of(s@) is None,
            },
    {
        let mut i: usize = 0;
        while i < self.entries.len()
            invariant
                self.wf(),
                i <= self.entries@.len(),
                forall|j: int| 0 <= j < i ==> #[trigger] suffix_numeral(j) != s@,
            decreases self.entries.len() - i,
        {
            let numeral = to_bijective_base_26(self.entries[i].1);
            if str_eq(numeral.as_str(), s) {
                proof {
                    assert(self.entries@[i as int].1 == i + 1);
                    assert(suffix_numeral(i as int) == s@);
                    let k = choose|k: int| 0 <= k < self.refs().len() && #[trigger] suffix_numeral(k) == s@;
                    lemma_bijective_26_injective((k + 1) as nat, (i + 1) as nat);
                    assert(self.refs()[i as int] == self.entries@[i as int].0@);
                }
                return Some(&self.entries[i].0);
            }
            proof {
                assert(self.entries@[i as int].1 == i + 1);
                assert(suffix_numeral(i as int) != s@);
            }
            i = i + 1;
        }
        None
    }
}

/// A reference's year suffix names that reference back: the owner of the
/// numeral of its suffix number is the reference itself.
pub proof fn lemma_suffix_names_its_reference(ys: YearSuffixes, r: Seq<char>)
    requires
        ys.wf(),
        ys.suffix_of(r) is Some,
    ensures
        ys.owner_of(bijective_26(ys.suffix_of(r)->0)) == Some(r),
{
    let refs = ys.refs();
    let i = refs.index_of(r);
    refs.index_of_first_ensures(r);
    assert(refs.index_of_first(r) == Some(i));
    let s = bijective_26(ys.suffix_of(r)->0);
    assert(suffix_numeral(i) == s);
    assert(exists|k: int| 0 <= k < refs.len() && #[trigger] suffix_numeral(k) == s);
    let k = choose|k: int| 0 <= k < refs.len() && #[trigger] suffix_numeral(k) == s;
    lemma_bijective_26_injective((k + 1) as nat, (i + 1) as nat);
}

proof fn lemma_index_of_unique(s: Seq<Seq<char>>, x: Seq<char>, i: int)
    requires
        s.no_duplicates(),
        0 <= i < s.len(),
        s[i] == x,
    ensures
        s.index_of(x) == i,
{
    s.index_of_first_ensures(x);
}

/// The year suffixes of the references: none unless the style adds year
/// suffixes; else each reference with an ambiguous cite gets one, numbered
/// from 1 in order of its first ambiguous cite. `cites` holds, in cite
/// order, each cite's reference and whether the cite is unambiguous after
/// the given-name pass.
pub fn year_suffixes(add_year_suffix: bool, cites: &Vec<(String, bool)>) -> (r: YearSuffixes)
    requires
        cites.len() < u32::MAX,
    ensures
        r.wf(),
        add_year_suffix ==> r.refs() == first_occurrences(ambiguous_refs(cites@)),
        !add_year_suffix ==> r.refs() == Seq::<Seq<char>>::empty(),
{
    if !add_year_suffix {
        return YearSuffixes::new();
    }
    let mut entries: Vec<(String, u32)> = Vec::new();
    let mut next: u32 = 1;
    let mut i: usize = 0;
    while i < cites.len()
        invariant
            i <= cites@.len(),
            cites@.len() < u32::MAX,
            entries@.len() <= i,
            next == entries@.len() + 1,
            entries@.map_values(|e: (String, u32)| e.0@) == first_occurrences(ambiguous_refs(cites@.subrange(0, i as int))),
            entries@.map_values(|e: (String, u32)| e.0@).no_duplicates(),
            forall|j: int| 0 <= j < entries@.len() ==> #[trigger] entries@[j].1 == j + 1,
        decreases cites.len() - i,
    {
        let ghost before = cites@.subrange(0, i as int);
        let ghost after = cites@.subrange(0, i + 1);
        assert(after.drop_last() == before);
        let ghost keys = entries@.map_values(|e: (String, u32)| e.0@);
        let (ref_id, unambiguous) = (&cites[i].0, cites[i].1);
        assert(after.last() == cites@[i as int]);
        let ghost amb = ambiguous_refs(before);
        assert(ambiguous_refs(after) == if unambiguous { amb } else { amb.push(ref_id@) });
        if !unambiguous {
            assert(amb.push(ref_id@).drop_last() == amb);
            let mut found = false;
            let mut j: usize = 0;
            while j < entries.len()
                invariant
                    j <= entries@.len(),
                    keys == entries@.map_values(|e: (String, u32)| e.0@),
                    found == (exists|k: int| 0 <= k < j && keys[k] == ref_id@),
                decreases entries.len() - j,
            {
                assert(keys[j as int] == entries@[j as int].0@);
                if str_eq(entries[j].0.as_str(), ref_id.as_str()) {
                    found = true;
                }
                j = j + 1;
            }
            assert(found == keys.contains(ref_id@));
            if !found {
                entries.push((ref_id.clone(), next));
                next = next + 1;
                assert(entries@.map_values(|e: (String, u32)| e.0@) == keys.push(ref_id@));
            }
        }
        i = i + 1;
    }
    assert(cites@.subrange(0, cites@.len() as int) == cites@);
    YearSuffixes { entries }
}

} // verus!

verus! {

/// For each token, the references in which it occurs. Where a token has
/// more than one entry, the first counts.
#[derive(Debug)]
pub struct DisambIndex {
    pub entries: Vec<(DisambToken, Vec<String>)>,
}

/// The references in which token `t` occurs, if the index has an entry
/// for it.
pub open spec fn index_lookup(entries: Seq<(DisambToken, Vec<String>)>, t: DisambTokenV) -> Option<Seq<Seq<char>>>
    decreases entries.len(),
{
    if entries.len() == 0 {
        None
    } else if entries[0].0@ == t {
        Some(str_views(entries[0].1@))
    } else {
        index_lookup(entries.drop_first(), t)
    }
}

impl DisambIndex {
    /// The references in which token `t` occurs, if the index has an entry
    /// for it.
    pub fn get(&self, t: &DisambToken) -> (r: Option<&Vec<String>>)
        ensures
            match r {
                Some(ids) => index_lookup(self.entries@, t@) == Some(str_views(ids@)),
                None => index_lookup(self.entries@, t@) is None,
            },
    {
        let mut i: usize = 0;
        assert(self.entries@.skip(0) == self.entries@);
        while i < self.entries.len()
            invariant
                i <= self.entries@.len(),
                index_lookup(self.entries@.skip(i as int), t@) == index_lookup(self.entries@, t@),
            decreases self.entries.len() - i,
        {
            assert(self.entries@.skip(i as int).drop_first() == self.entries@.skip(i + 1));
            if token_eq(&self.entries[i].0, t) {
                return Some(&self.entries[i].1);
            }
            i = i + 1;
        }
        None
    }
}

/// The reference a token names by its year suffix, if any.
pub open spec fn suffix_lookup(ys: Option<YearSuffixes>, t: DisambTokenV) -> Option<Seq<char>> {
    match (ys, t) {
        (Some(y), DisambTokenV::Str(s)) => y.owner_of(s),
        _ => None,
    }
}

/// Token `t` points at reference `r`: the index lists `r` for it, or `t`
/// is `r`'s year suffix.
pub open spec fn points_at(
    index: Seq<(DisambToken, Vec<String>)>,
    ys: Option<YearSuffixes>,
    t: DisambTokenV,
    r: Seq<char>,
) -> bool {
    (index_lookup(index, t) matches Some(ids) && ids.contains(r)) || suffix_lookup(ys, t) == Some(r)
}

/// Token `t` does not rule out reference `r`: where the index has an entry
/// for `t` it lists `r`, and where `t` is a year suffix it is `r`'s.
pub open spec fn allows(
    index: Seq<(DisambToken, Vec<String>)>,
    ys: Option<YearSuffixes>,
    t: DisambTokenV,
    r: Seq<char>,
) -> bool {
    &&& (index_lookup(index, t) matches Some(ids) ==> ids.contains(r))
    &&& (suffix_lookup(ys, t) matches Some(id) ==> r == id)
}

/// A reference the cite could be citing: some token points at it and no
/// token rules it out. Tokens that point at nothing are part of the style
/// and are ignored.
pub open spec fn could_be(
    index: Seq<(DisambToken, Vec<String>)>,
    ys: Option<YearSuffixes>,
    tokens: Set<DisambTokenV>,
    r: Seq<char>,
) -> bool {
    &&& exists|t: DisambTokenV| tokens.contains(t) && #[trigger] points_at(index, ys, t, r)
    &&& forall|t: DisambTokenV| tokens.contains(t) ==> #[trigger] allows(index, ys, t, r)
}

/// The cite's tokens leave at most one reference it could be citing (none
/// for content such as "ibid" that matches no reference).
pub open spec fn unambiguous_spec(
    index: Seq<(DisambToken, Vec<String>)>,
    ys: Option<YearSuffixes>,
    tokens: Set<DisambTokenV>,
) -> bool {
    forall|r1: Seq<char>, r2: Seq<char>|
        could_be(index, ys, tokens, r1) && could_be(index, ys, tokens, r2) ==> r1 == r2
}

proof fn lemma_views_push(v: Seq<String>, s: String)
    ensures
        forall|r: Seq<char>| #[trigger] str_views(v.push(s)).contains(r) <==> str_views(v).contains(r) || r == s@,
{
    assert forall|r: Seq<char>| #[trigger] str_views(v.push(s)).contains(r) <==> str_views(v).contains(r) || r == s@ by {
        let w = str_views(v.push(s));
        let u = str_views(v);
        assert(w.len() == u.len() + 1);
        if w.contains(r) {
            let k = choose|k: int| 0 <= k < w.len() && w[k] == r;
            if k < u.len() {
                assert(u[k] == w[k]);
            }
        }
        if u.contains(r) {
            let k = choose|k: int| 0 <= k < u.len() && u[k] == r;
            assert(w[k] == u[k]);
        }
        if r == s@ {
            assert(w[u.len() as int] == r);
        }
    }
}

fn push_unique(refs: &mut Vec<String>, s: &String)
    requires
        str_views(old(refs)@).no_duplicates(),
    ensures
        str_views(final(refs)@).no_duplicates(),
        forall|r: Seq<char>| #[trigger] str_views(final(refs)@).contains(r) <==> str_views(old(refs)@).contains(r) || r == s@,
{
    if !contains_str(refs, s.as_str()) {
        let ghost before = refs@;
        refs.push(s.clone());
        proof {
            lemma_views_push(before, *s);
            let w = str_views(refs@);
            let u = str_views(before);
            assert forall|i: int, j: int| 0 <= i < w.len() && 0 <= j < w.len() && i != j implies w[i] != w[j] by {
                if i < u.len() && j < u.len() {
                    assert(w[i] == u[i] && w[j] == u[j]);
                } else if i < u.len() {
                    assert(w[i] == u[i]);
                } else if j < u.len() {
                    assert(w[j] == u[j]);
                }
            }
        }
    }
}

/// Whether the tokens of a cite leave at most one reference it could be
/// citing. With year suffixes, a token that is a reference's suffix points
/// at that reference alone.
pub fn is_unambiguous(index: &DisambIndex, year_suffixes: Option<&YearSuffixes>, state: &IrState) -> (r: bool)
    requires
        year_suffixes matches Some(y) ==> y.wf(),
    ensures
        r == unambiguous_spec(
            index.entries@,
            match year_suffixes {
                Some(y) => Some(*y),
                None => None,
            },
            state.token_set(),
        ),
{
    let ghost ys = match year_suffixes {
        Some(y) => Some(*y),
        None => None,
    };
    let ghost ix = index.entries@;
    let ghost toks = state.tokens@.map_values(|t: DisambToken| t@);
    let n = state.tokens.len();
    let mut refs: Vec<String> = Vec::new();
    // every reference some token points at
    let mut i: usize = 0;
    while i < n
        invariant
            n == state.tokens@.len(),
            ix == index.entries@,
            toks == state.tokens@.map_values(|t: DisambToken| t@),
            i <= n,
            year_suffixes matches Some(y) ==> y.wf(),
            ys == match year_suffixes {
                Some(y) => Some(*y),
                None => None,
            },
            str_views(refs@).no_duplicates(),
            forall|r: Seq<char>| #[trigger] str_views(refs@).contains(r) <==> exists|k: int|
                0 <= k < i && points_at(ix, ys, #[trigger] toks[k], r),
        decreases n - i,
    {
        let tok = &state.tokens[i];
        assert(toks[i as int] == tok@);
        let ghost before = refs@;
        let looked = index.get(tok);
        match looked {
            Some(ids) => {
                let mut j: usize = 0;
                while j < ids.len()
                    invariant
                        j <= ids@.len(),
                        str_views(refs@).no_duplicates(),
                        forall|r: Seq<char>| #[trigger] str_views(refs@).contains(r) <==> str_views(before).contains(r)
                            || str_views(ids@).subrange(0, j as int).contains(r),
                    decreases ids.len() - j,
                {
                    let ghost mid = refs@;
                    push_unique(&mut refs, &ids[j]);
                    proof {
                        let sub0 = str_views(ids@).subrange(0, j as int);
                        let sub1 = str_views(ids@).subrange(0, j + 1);
                        assert(sub1 == sub0.push(ids@[j as int]@));
                        assert forall|r: Seq<char>| sub1.contains(r) <==> sub0.contains(r) || r == ids@[j as int]@ by {
                            if sub1.contains(r) {
                                let k = choose|k: int| 0 <= k < sub1.len() && sub1[k] == r;
                                if k < sub0.len() {
                                    assert(sub0[k] == sub1[k]);
                                }
                            }
                            if sub0.contains(r) {
                                let k = choose|k: int| 0 <= k < sub0.len() && sub0[k] == r;
                                assert(sub1[k] == sub0[k]);
                            }
                            if r == ids@[j as int]@ {
                                assert(sub1[j as int] == r);
                            }
                        }
                    }
                    j = j + 1;
                }
                assert(str_views(ids@).subrange(0, ids@.len() as int) == str_views(ids@));
                assert forall|r: Seq<char>| #[trigger] str_views(refs@).contains(r) <==> str_views(before).contains(r)
                    || (index_lookup(ix, tok@) matches Some(ids) && ids.contains(r)) by {}
            },
            None => {
                assert forall|r: Seq<char>| #[trigger] str_views(refs@).contains(r) <==> str_views(before).contains(r)
                    || (index_lookup(ix, tok@) matches Some(ids) && ids.contains(r)) by {}
            },
        }
        let ghost mid = refs@;
        let owner = match year_suffixes {
            Some(y) => match tok {
                DisambToken::Str(s) => y.owner(s.as_str()),
                DisambToken::Date(_) => None,
            },
            None => None,
        };
        match owner {
            Some(id) => push_unique(&mut refs, id),
            None => {},
        }
        proof {
            assert(suffix_lookup(ys, tok@) == match owner {
                Some(id) => Some(id@),
                None => None::<Seq<char>>,
            });
            assert forall|r: Seq<char>| #[trigger] str_views(refs@).contains(r) <==> exists|k: int|
                0 <= k < i + 1 && points_at(ix, ys, #[trigger] toks[k], r) by {
                if str_views(refs@).contains(r) {
                    if !points_at(ix, ys, toks[i as int], r) {
                        assert(str_views(mid).contains(r));
                        assert(str_views(before).contains(r));
                    }
                }
                if points_at(ix, ys, toks[i as int], r) {
                    assert(str_views(refs@).contains(r));
                }
                if exists|k: int| 0 <= k < i + 1 && points_at(ix, ys, #[trigger] toks[k], r) {
                    let k = choose|k: int| 0 <= k < i + 1 && points_at(ix, ys, #[trigger] toks[k], r);
                    if k < i {
                        assert(str_views(before).contains(r));
                    }
                }
            }
        }
        i = i + 1;
    }
    // keep those that no token rules out
    let mut m: usize = 0;
    while m < n
        invariant
            n == state.tokens@.len(),
            ix == index.entries@,
            toks == state.tokens@.map_values(|t: DisambToken| t@),
            m <= n,
            year_suffixes matches Some(y) ==> y.wf(),
            ys == match year_suffixes {
                Some(y) => Some(*y),
                None => None,
            },
            str_views(refs@).no_duplicates(),
            forall|r: Seq<char>| #[trigger] str_views(refs@).contains(r) <==> (exists|k: int|
                0 <= k < n && points_at(ix, ys, #[trigger] toks[k], r)) && forall|k: int|
                0 <= k < m ==> allows(ix, ys, #[trigger] toks[k], r),
        decreases n - m,
    {
        let tok = &state.tokens[m];
        assert(toks[m as int] == tok@);
        let ids = index.get(tok);
        let owner = match year_suffixes {
            Some(y) => match tok {
                DisambToken::Str(s) => y.owner(s.as_str()),
                DisambToken::Date(_) => None,
            },
            None => None,
        };
        assert(suffix_lookup(ys, tok@) == match owner {
            Some(id) => Some(id@),
            None => None::<Seq<char>>,
        });
        let ghost old_refs = refs@;
        let mut kept: Vec<String> = Vec::new();
        let mut q: usize = 0;
        while q < refs.len()
            invariant
                q <= refs@.len(),
                ix == index.entries@,
                refs@ == old_refs,
                match ids {
                    Some(v) => index_lookup(ix, tok@) == Some(str_views(v@)),
                    None => index_lookup(ix, tok@) is None,
                },
                suffix_lookup(ys, tok@) == match owner {
                    Some(id) => Some(id@),
                    None => None::<Seq<char>>,
                },
                str_views(old_refs).no_duplicates(),
                str_views(kept@).no_duplicates(),
                forall|r: Seq<char>| #[trigger] str_views(kept@).contains(r) <==> str_views(old_refs).subrange(0, q as int).contains(r)
                    && allows(ix, ys, tok@, r),
            decreases refs.len() - q,
        {
            let rq = &refs[q];
            let in_ids = match ids {
                Some(v) => contains_str(v, rq.as_str()),
                None => true,
            };
            let is_owner = match owner {
                Some(id) => str_eq(id.as_str(), rq.as_str()),
                None => true,
            };
            let ghost sub0 = str_views(old_refs).subrange(0, q as int);
            let ghost sub1 = str_views(old_refs).subrange(0, q + 1);
            proof {
                assert(sub1 == sub0.push(rq@));
                assert forall|r: Seq<char>| sub1.contains(r) <==> sub0.contains(r) || r == rq@ by {
                    if sub1.contains(r) {
                        let k = choose|k: int| 0 <= k < sub1.len() && sub1[k] == r;
                        if k < sub0.len() {
                            assert(sub0[k] == sub1[k]);
                        }
                    }
                    if sub0.contains(r) {
                        let k = choose|k: int| 0 <= k < sub0.len() && sub0[k] == r;
                        assert(sub1[k] == sub0[k]);
                    }
                    if r == rq@ {
                        assert(sub1[q as int] == r);
                    }
                }
                assert(!sub0.contains(rq@)) by {
                    if sub0.contains(rq@) {
                        let k = choose|k: int| 0 <= k < sub0.len() && sub0[k] == rq@;
                        assert(str_views(old_refs)[k] == str_views(old_refs)[q as int]);
                    }
                }
            }
            assert((in_ids && is_owner) == allows(ix, ys, tok@, rq@));
            if in_ids && is_owner {
                push_unique(&mut kept, rq);
            }
            q = q + 1;
        }
        assert(str_views(old_refs).subrange(0, old_refs.len() as int) == str_views(old_refs));
        refs = kept;
        proof {
            assert forall|r: Seq<char>| #[trigger] str_views(refs@).contains(r) <==> (exists|k: int|
                0 <= k < n && points_at(ix, ys, #[trigger] toks[k], r)) && forall|k: int|
                0 <= k < m + 1 ==> allows(ix, ys, #[trigger] toks[k], r) by {
                if (forall|k: int| 0 <= k < m ==> allows(ix, ys, #[trigger] toks[k], r)) && allows(ix, ys, tok@, r) {
                    assert forall|k: int| 0 <= k < m + 1 implies allows(ix, ys, #[trigger] toks[k], r) by {}
                }
            }
        }
        m = m + 1;
    }
    let ghost tset = state.token_set();
    proof {
        assert forall|t: DisambTokenV| tset.contains(t) <==> toks.contains(t) by {}
        assert forall|r: Seq<char>| #[trigger] str_views(refs@).contains(r) <==> could_be(ix, ys, tset, r) by {
            if str_views(refs@).contains(r) {
                let k = choose|k: int| 0 <= k < n && points_at(ix, ys, #[trigger] toks[k], r);
                assert(tset.contains(toks[k]));
                assert forall|t: DisambTokenV| tset.contains(t) implies #[trigger] allows(ix, ys, t, r) by {
                    let j = choose|j: int| 0 <= j < toks.len() && toks[j] == t;
                }
            }
            if could_be(ix, ys, tset, r) {
                let t = choose|t: DisambTokenV| tset.contains(t) && #[trigger] points_at(ix, ys, t, r);
                let j = choose|j: int| 0 <= j < toks.len() && toks[j] == t;
                assert(points_at(ix, ys, toks[j], r));
                assert forall|k: int| 0 <= k < n implies allows(ix, ys, #[trigger] toks[k], r) by {
                    assert(tset.contains(toks[k]));
                }
            }
        }
    }
    let result = refs.len() < 2;
    proof {
        let w = str_views(refs@);
        if result {
            assert forall|r1: Seq<char>, r2: Seq<char>| could_be(ix, ys, tset, r1) && could_be(ix, ys, tset, r2) implies r1 == r2 by {
                assert(w.contains(r1));
                assert(w.contains(r2));
            }
        } else {
            assert(w[0] != w[1]);
            assert(w.contains(w[0]));
            assert(w.contains(w[1]));
            assert(could_be(ix, ys, tset, w[0]));
            assert(could_be(ix, ys, tset, w[1]));
        }
    }
    result
}

} // verus!

verus! {

/// A disambiguation pass, run on a cite that is still ambiguous.
#[derive(Debug, Copy, Clone, PartialEq, Eq, Structural)]
pub enum DisambPass {
    AddNames,
    AddGivenName(GivenNameDisambiguationRule),
    AddYearSuffix(u32),
    Conditionals,
}

/// Whether the name pass runs after the first rendering: only on a cite
/// that is still ambiguous, and only if the style adds names. `None`
/// keeps the previous rendering.
pub fn ir_gen1_add_names(prev_unambiguous: bool, citation: &Citation) -> (r: Option<DisambPass>)
    ensures
        r == (if prev_unambiguous || !citation.disambiguate_add_names {
            None
        } else {
            Some(DisambPass::AddNames)
        }),
{
    if prev_unambiguous || !citation.disambiguate_add_names {
        return None;
    }
    Some(DisambPass::AddNames)
}

/// Whether the given-name pass runs after the name pass: only on a cite
/// that is still ambiguous, and only if the style adds given names, with
/// the style's rule.
pub fn ir_gen2_add_given_name(prev_unambiguous: bool, citation: &Citation) -> (r: Option<DisambPass>)
    ensures
        r == (if prev_unambiguous || !citation.disambiguate_add_givenname {
            None
        } else {
            Some(DisambPass::AddGivenName(citation.givenname_disambiguation_rule))
        }),
{
    if prev_unambiguous || !citation.disambiguate_add_givenname {
        return None;
    }
    Some(DisambPass::AddGivenName(citation.givenname_disambiguation_rule))
}

/// Whether the year-suffix pass runs after the given-name pass: only on a
/// cite that is still ambiguous, only if the style adds year suffixes,
/// and only if the cite's reference has one; the pass adds that suffix.
pub fn ir_gen3_add_year_suffix(
    prev_unambiguous: bool,
    citation: &Citation,
    suffixes: &YearSuffixes,
    ref_id: &str,
) -> (r: Option<DisambPass>)
    requires
        suffixes.wf(),
    ensures
        r == (if prev_unambiguous || !citation.disambiguate_add_year_suffix {
            None
        } else {
            match suffixes.suffix_of(ref_id@) {
                Some(n) => Some(DisambPass::AddYearSuffix(n as u32)),
                None => None,
            }
        }),
{
    if prev_unambiguous || !citation.disambiguate_add_year_suffix {
        return None;
    }
    match suffixes.get(ref_id) {
        Some(n) => Some(DisambPass::AddYearSuffix(n)),
        None => None,
    }
}

/// Whether the conditionals pass runs after the year-suffix pass: on any
/// cite that is still ambiguous.
pub fn ir_gen4_conditionals(prev_unambiguous: bool) -> (r: Option<DisambPass>)
    ensures
        r == (if prev_unambiguous { None } else { Some(DisambPass::Conditionals) }),
{
    if prev_unambiguous {
        return None;
    }
    Some(DisambPass::Conditionals)
}

/// Whether a cite is unambiguous after a disambiguation pass, from the
/// tokens of its rendering after the pass. Year suffixes count only from
/// the year-suffix pass on, so only that pass looks them up.
pub fn ambiguity_after_pass(
    index: &DisambIndex,
    suffixes: &YearSuffixes,
    pass: DisambPass,
    state: &IrState,
) -> (r: bool)
    requires
        suffixes.wf(),
    ensures
        r == unambiguous_spec(
            index.entries@,
            if pass is AddYearSuffix {
                Some(*suffixes)
            } else {
                None
            },
            state.token_set(),
        ),
{
    match pass {
        DisambPass::AddYearSuffix(_) => is_unambiguous(index, Some(suffixes), state),
        _ => is_unambiguous(index, None, state),
    }
}

/// What a cite of a missing reference renders to: the text `???`,
/// counted as unambiguous, with no tokens.
pub fn ref_not_found<T: View, O: View, F: OutputFormat<T, O>>(fmt: &F) -> (r: (IR<T>, bool, IrState))
    ensures
        r.0 matches IR::Rendered(Some(x)) && x@ == fmt.text_node_spec("???"@, crate::style::default_formatting()),
        r.1,
        r.2.token_set() == Set::<DisambTokenV>::empty(),
{
    (IR::Rendered(Some(fmt.plain("???"))), true, IrState::new())
}

/// The first rendering of a cite, given how its reference rendered
/// (`None` where the reference is missing): a missing reference renders
/// `???` and counts as unambiguous; otherwise the rendering and its tokens
/// are kept, and the cite is unambiguous when its tokens, without year
/// suffixes, leave at most one reference.
pub fn ir_gen0<T: View, O: View, F: OutputFormat<T, O>>(
    fmt: &F,
    index: &DisambIndex,
    rendering: Option<(IR<T>, IrState)>,
) -> (r: (IR<T>, bool, IrState))
    ensures
        match rendering {
            None => r.0 matches IR::Rendered(Some(x)) && x@ == fmt.text_node_spec(
                "???"@,
                crate::style::default_formatting(),
            ) && r.1 && r.2.token_set() == Set::<DisambTokenV>::empty(),
            Some((ir, st)) => r.0 == ir && r.2 == st && r.1 == unambiguous_spec(
                index.entries@,
                None,
                st.token_set(),
            ),
        },
{
    match rendering {
        None => ref_not_found(fmt),
        Some((ir, state)) => {
            let un = is_unambiguous(index, None, &state);
            (ir, un, state)
        },
    }
}

/// The cites of a cluster, built: each cite's node (the empty text where
/// a cite rendered nothing), grouped by the layout's delimiter with its
/// formatting, inside its affixes.
pub open spec fn cluster_spec<T: View, O: View, F: OutputFormat<T, O>>(
    fmt: &F,
    cites: Seq<Option<T>>,
    layout: Layout,
) -> O::V {
    fmt.output_spec(
        affixed_spec(
            fmt,
            fmt.group_spec(
                cites.map_values(|c: Option<T>| match c {
                    Some(x) => x@,
                    None => fmt.text_node_spec(""@, crate::style::default_formatting()),
                }),
                layout.delimiter.0@,
                formatting_or_default(layout.formatting),
            ),
            layout.affixes,
        ),
    )
}

/// Builds the output of a cluster from the flattened rendering of each of
/// its cites.
pub fn built_cluster<T: View, O: View, F: OutputFormat<T, O>>(
    fmt: &F,
    cites: Vec<Option<T>>,
    layout: &Layout,
) -> (r: O)
    ensures
        r@ == cluster_spec(fmt, cites@, *layout),
{
    let ghost orig = cites@;
    let ghost f = |c: Option<T>| match c {
        Some(x) => x@,
        None => fmt.text_node_spec(""@, crate::style::default_formatting()),
    };
    let mut rest = cites;
    let mut built: Vec<T> = Vec::new();
    let ghost mut k: int = 0;
    while rest.len() > 0
        invariant
            0 <= k <= orig.len(),
            rest@ == orig.subrange(k, orig.len() as int),
            built@.map_values(|x: T| x@) == orig.subrange(0, k).map_values(f),
            f == (|c: Option<T>| match c {
                Some(x) => x@,
                None => fmt.text_node_spec(""@, crate::style::default_formatting()),
            }),
        decreases rest.len(),
    {
        let c = rest.remove(0);
        assert(c == orig[k]);
        let node = match c {
            Some(x) => x,
            None => fmt.plain(""),
        };
        let ghost nv = node@;
        assert(nv == f(orig[k]));
        let ghost bb = built@;
        built.push(node);
        assert(built@.map_values(|x: T| x@) == bb.map_values(|x: T| x@).push(nv));
        assert(orig.subrange(0, k + 1) == orig.subrange(0, k).push(orig[k]));
        assert(orig.subrange(0, k + 1).map_values(f) == orig.subrange(0, k).map_values(f).push(f(orig[k])));
        proof {
            k = k + 1;
        }
    }
    assert(orig.subrange(0, orig.len() as int) == orig);
    let fm = or_default_formatting(layout.formatting);
    let g = fmt.group(built.as_slice(), layout.delimiter.0.as_str(), &fm);
    let b = affixed(fmt, g, &layout.affixes);
    fmt.output(b)
}

} // verus!
