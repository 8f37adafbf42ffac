//! Rendering helpers: joining runs of rendered content, and numeric
//! content.
use vstd::prelude::*;
use crate::ir::IR;
use crate::output::OutputFormat;
use crate::style::Formatting;

verus! {

/// A piece of a sequence after consecutive rendered content is joined: a
/// run of rendered nodes, or a piece that is not yet rendered.
pub enum Piece<T> {
    Run(Seq<T>),
    Other(IR<T>),
}

/// Ends the current run, if it holds anything.
pub open spec fn flush<T>(done: Seq<Piece<T>>, run: Seq<T>) -> Seq<Piece<T>> {
    if run.len() > 0 {
        done.push(Piece::Run(run))
    } else {
        done
    }
}

/// Reads the pieces left to right: rendered content extends the run,
/// content that rendered nothing is dropped, and anything else ends the
/// run and stands on its own.
pub open spec fn pieces_fold<T>(irs: Seq<IR<T>>) -> (Seq<Piece<T>>, Seq<T>)
    decreases irs.len(),
{
    if irs.len() == 0 {
        (Seq::empty(), Seq::empty())
    } else {
        let (done, run) = pieces_fold(irs.drop_last());
        match irs.last() {
            IR::Rendered(Some(r)) => (done, run.push(r)),
            IR::Rendered(None) => (done, run),
            other => (flush(done, run).push(Piece::Other(other)), Seq::empty()),
        }
    }
}

/// The pieces of a sequence, with every run of consecutive rendered
/// content together.
pub open spec fn pieces<T>(irs: Seq<IR<T>>) -> Seq<Piece<T>> {
    let (done, run) = pieces_fold(irs);
    flush(done, run)
}

/// `ir` is what `piece` becomes: a run becomes one rendered group of its
/// nodes; any other piece stays as it is.
pub open spec fn realizes<T: View, O: View, F: OutputFormat<T, O>>(
    fmt: &F,
    delim: Seq<char>,
    f: Formatting,
    ir: IR<T>,
    piece: Piece<T>,
) -> bool {
    match piece {
        Piece::Run(nodes) => ir matches IR::Rendered(Some(g)) && g@ == fmt.group_spec(
            nodes.map_values(|n: T| n@),
            delim,
            f,
        ),
        Piece::Other(p) => ir == p,
    }
}

/// Joins the rendered content of consecutive elements: each run of
/// rendered nodes becomes one group with the delimiter and formatting,
/// elements that rendered nothing are dropped, and other elements are kept
/// as they are. One piece is returned on its own, none as nothing
/// rendered, more as a sequence.
pub fn sequence<T: View, O: View, F: OutputFormat<T, O>>(
    fmt: &F,
    f: &Formatting,
    delim: &str,
    irs: Vec<IR<T>>,
) -> (r: IR<T>)
    ensures
        pieces(irs@).len() == 0 ==> (r matches IR::Rendered(None)),
        pieces(irs@).len() == 1 ==> realizes(fmt, delim@, *f, r, pieces(irs@)[0]),
        pieces(irs@).len() >= 2 ==> (r matches IR::Sequence(v) && v@.len() == pieces(irs@).len()
            && forall|i: int| 0 <= i < v@.len() ==> realizes(fmt, delim@, *f, #[trigger] v@[i], pieces(irs@)[i])),
{
    let ghost orig = irs@;
    let mut rest = irs;
    let mut dedup: Vec<IR<T>> = Vec::new();
    let mut dups: Vec<T> = Vec::new();
    let ghost mut k: int = 0;
    while rest.len() > 0
        invariant
            0 <= k <= orig.len(),
            rest@ == orig.subrange(k, orig.len() as int),
            ({
                let (done, run) = pieces_fold(orig.subrange(0, k));
                &&& dups@ == run
                &&& dedup@.len() == done.len()
                &&& forall|i: int| 0 <= i < done.len() ==> realizes(fmt, delim@, *f, #[trigger] dedup@[i], done[i])
            }),
        decreases rest.len(),
    {
        let ghost before = orig.subrange(0, k);
        let ghost after = orig.subrange(0, k + 1);
        assert(after.drop_last() == before);
        assert(after.last() == orig[k]);
        let ghost (done0, run0) = pieces_fold(before);
        let pr = rest.remove(0);
        assert(pr == orig[k]);
        match pr {
            IR::Rendered(Some(r)) => {
                dups.push(r);
            },
            IR::Rendered(None) => {},
            other => {
                let ghost flushed = flush(done0, run0);
                if dups.len() > 0 {
                    let g = fmt.group(dups.as_slice(), delim, f);
                    dedup.push(IR::Rendered(Some(g)));
                    dups.clear();
                }
                assert(dedup@.len() == flushed.len());
                assert forall|i: int| 0 <= i < flushed.len() implies realizes(fmt, delim@, *f, #[trigger] dedup@[i], flushed[i]) by {
                    if i < done0.len() {
                        assert(flushed[i] == done0[i]);
                    }
                }
                dedup.push(other);
            },
        }
        proof {
            k = k + 1;
            assert(rest@ == orig.subrange(k, orig.len() as int));
        }
    }
    assert(orig.subrange(0, orig.len() as int) == orig);
    let ghost (done, run) = pieces_fold(orig);
    if dups.len() > 0 {
        let g = fmt.group(dups.as_slice(), delim, f);
        dedup.push(IR::Rendered(Some(g)));
        dups.clear();
    }
    let ghost ps = pieces(orig);
    assert(dedup@.len() == ps.len());
    assert forall|i: int| 0 <= i < ps.len() implies realizes(fmt, delim@, *f, #[trigger] dedup@[i], ps[i]) by {
        if i < done.len() {
            assert(ps[i] == done[i]);
        }
    }
    if dedup.len() == 1 {
        let only = dedup.remove(0);
        return only;
    }
    if dedup.len() == 0 {
        return IR::Rendered(None);
    }
    IR::Sequence(dedup)
}

} // verus!

verus! {

/// Where a reading of numeric content stands.
#[derive(Debug, Copy, Clone, PartialEq, Eq, Structural)]
pub enum NumState {
    /// At the start.
    Start,
    /// In the letters before a number.
    Prefix,
    /// In the digits of a number.
    Digits,
    /// In the letters after a number.
    Suffix,
    /// In the spaces between a number and a separator.
    BeforeSep,
    /// After a separator, and any spaces that follow it.
    AfterSep,
}

pub open spec fn is_digit(c: char) -> bool {
    '0' <= c <= '9'
}

pub open spec fn is_affix_letter(c: char) -> bool {
    ('a' <= c <= 'z') || ('A' <= c <= 'Z')
}

pub open spec fn is_separator(c: char) -> bool {
    c == ',' || c == '-' || c == '&'
}

/// One step of reading numeric content: numbers with optional letter
/// prefixes and suffixes, separated by a comma, hyphen or ampersand, with
/// or without spaces around it.
pub open spec fn num_step(s: NumState, c: char) -> Option<NumState> {
    match s {
        NumState::Start | NumState::Prefix | NumState::AfterSep => {
            if is_digit(c) {
                Some(NumState::Digits)
            } else if is_affix_letter(c) {
                Some(NumState::Prefix)
            } else if c == ' ' && s == NumState::AfterSep {
                Some(NumState::AfterSep)
            } else {
                None
            }
        },
        NumState::Digits | NumState::Suffix => {
            if is_digit(c) && s == NumState::Digits {
                Some(NumState::Digits)
            } else if is_affix_letter(c) {
                Some(NumState::Suffix)
            } else if c == ' ' {
                Some(NumState::BeforeSep)
            } else if is_separator(c) {
                Some(NumState::AfterSep)
            } else {
                None
            }
        },
        NumState::BeforeSep => {
            if c == ' ' {
                Some(NumState::BeforeSep)
            } else if is_separator(c) {
                Some(NumState::AfterSep)
            } else {
                None
            }
        },
    }
}

/// The state after reading all of `s`, if the reading does not fail.
pub open spec fn num_run(s: Seq<char>) -> Option<NumState>
    decreases s.len(),
{
    if s.len() == 0 {
        Some(NumState::Start)
    } else {
        match num_run(s.drop_last()) {
            Some(st) => num_step(st, s.last()),
            None => None,
        }
    }
}

/// Content is numeric when it consists solely of numbers, each with
/// optional letter prefixes and suffixes ("D2", "2b", "L2d"), separated
/// by a comma, hyphen or ampersand with or without spaces ("2, 3", "2-4",
/// "2 & 4").
pub open spec fn is_numeric_content(s: Seq<char>) -> bool {
    num_run(s) == Some(NumState::Digits) || num_run(s) == Some(NumState::Suffix)
}

proof fn lemma_num_run_concat(x1: Seq<char>, x2: Seq<char>, y: Seq<char>)
    requires
        num_run(x1) == num_run(x2),
    ensures
        num_run(x1 + y) == num_run(x2 + y),
    decreases y.len(),
{
    if y.len() == 0 {
        assert(x1 + y =~= x1);
        assert(x2 + y =~= x2);
    } else {
        let yl = y.drop_last();
        lemma_num_run_concat(x1, x2, yl);
        assert((x1 + y).drop_last() =~= x1 + yl);
        assert((x2 + y).drop_last() =~= x2 + yl);
        assert((x1 + y).last() == y.last());
        assert((x2 + y).last() == y.last());
    }
}

/// Whether every character is a digit, and there is at least one.
pub open spec fn all_digits(d: Seq<char>) -> bool {
    d.len() > 0 && forall|i: int| 0 <= i < d.len() ==> is_digit(#[trigger] d[i])
}

proof fn lemma_num_run_number(x: Seq<char>, d: Seq<char>)
    requires
        num_run(x) == Some(NumState::Start) || num_run(x) == Some(NumState::Prefix) || num_run(x) == Some(
            NumState::AfterSep,
        ),
        all_digits(d),
    ensures
        num_run(x + d) == Some(NumState::Digits),
    decreases d.len(),
{
    let dl = d.drop_last();
    assert((x + d).drop_last() =~= x + dl);
    assert((x + d).last() == d[d.len() - 1]);
    assert(is_digit(d[d.len() - 1]));
    if dl.len() > 0 {
        assert forall|i: int| 0 <= i < dl.len() implies is_digit(#[trigger] dl[i]) by {
            assert(dl[i] == d[i]);
        }
        lemma_num_run_number(x, dl);
    } else {
        assert(x + dl =~= x);
    }
}

proof fn lemma_num_run_push(x: Seq<char>, c: char)
    ensures
        num_run(x.push(c)) == match num_run(x) {
            Some(st) => num_step(st, c),
            None => None,
        },
{
    assert(x.push(c).drop_last() =~= x);
}

/// Numbers separated by a comma, a hyphen or an ampersand are numeric
/// content, with or without a space on each side of the separator (`2,3`,
/// `2-4`, `2&4`, `2 & 4`), and so is a number alone.
pub proof fn lemma_numbers_with_separators(x: Seq<char>, y: Seq<char>, sep: char)
    requires
        all_digits(x),
        all_digits(y),
        sep == ',' || sep == '-' || sep == '&',
    ensures
        is_numeric_content(x),
        is_numeric_content(x + seq![sep] + y),
        is_numeric_content(x + seq![' ', sep, ' '] + y),
{
    let e = Seq::<char>::empty();
    lemma_num_run_number(e, x);
    assert(e + x =~= x);
    lemma_num_run_push(x, sep);
    assert(x + seq![sep] =~= x.push(sep));
    lemma_num_run_number(x + seq![sep], y);
    lemma_num_run_push(x, ' ');
    lemma_num_run_push(x.push(' '), sep);
    lemma_num_run_push(x.push(' ').push(sep), ' ');
    assert(x + seq![' ', sep, ' '] =~= x.push(' ').push(sep).push(' '));
    lemma_num_run_number(x + seq![' ', sep, ' '], y);
}

/// Spaces around a separator change nothing: a value with a bare
/// separator is numeric content exactly when the same value with a space
/// on each side of that separator is.
pub proof fn lemma_separator_spacing(a: Seq<char>, b: Seq<char>, sep: char)
    requires
        sep == ',' || sep == '-' || sep == '&',
    ensures
        is_numeric_content(a + seq![sep] + b) == is_numeric_content(a + seq![' ', sep, ' '] + b),
{
    lemma_num_run_push(a, sep);
    assert(a + seq![sep] =~= a.push(sep));
    lemma_num_run_push(a, ' ');
    lemma_num_run_push(a.push(' '), sep);
    lemma_num_run_push(a.push(' ').push(sep), ' ');
    assert(a + seq![' ', sep, ' '] =~= a.push(' ').push(sep).push(' '));
    lemma_num_run_concat(a + seq![sep], a + seq![' ', sep, ' '], b);
}

/// Whether every character is an ASCII letter (there may be none).
pub open spec fn all_letters(w: Seq<char>) -> bool {
    forall|i: int| 0 <= i < w.len() ==> is_affix_letter(#[trigger] w[i])
}

proof fn lemma_num_run_letters(x: Seq<char>, w: Seq<char>, st: NumState)
    requires
        all_letters(w),
        w.len() > 0,
        st == NumState::Prefix || st == NumState::Suffix,
        (st == NumState::Prefix ==> (num_run(x) == Some(NumState::Start) || num_run(x) == Some(NumState::Prefix))),
        (st == NumState::Suffix ==> (num_run(x) == Some(NumState::Digits) || num_run(x) == Some(NumState::Suffix))),
    ensures
        num_run(x + w) == Some(st),
    decreases w.len(),
{
    let wl = w.drop_last();
    assert((x + w).drop_last() =~= x + wl);
    assert((x + w).last() == w[w.len() - 1]);
    assert(is_affix_letter(w[w.len() - 1]));
    if wl.len() > 0 {
        assert forall|i: int| 0 <= i < wl.len() implies is_affix_letter(#[trigger] wl[i]) by {
            assert(wl[i] == w[i]);
        }
        lemma_num_run_letters(x, wl, st);
    } else {
        assert(x + wl =~= x);
    }
    assert(!is_digit(w[w.len() - 1]));
}

/// A number with letters before and after it is numeric content ("D2",
/// "2b", "2nd", "L2d").
pub proof fn lemma_affixed_number(p: Seq<char>, x: Seq<char>, q: Seq<char>)
    requires
        all_letters(p),
        all_digits(x),
        all_letters(q),
    ensures
        is_numeric_content(p + x + q),
{
    let e = Seq::<char>::empty();
    if p.len() > 0 {
        lemma_num_run_letters(e, p, NumState::Prefix);
        assert(e + p =~= p);
    } else {
        assert(p =~= e);
    }
    lemma_num_run_number(p, x);
    if q.len() > 0 {
        lemma_num_run_letters(p + x, q, NumState::Suffix);
    } else {
        assert(p + x + q =~= p + x);
    }
}

proof fn lemma_no_digit_states(s: Seq<char>)
    requires
        forall|i: int| 0 <= i < s.len() ==> !is_digit(#[trigger] s[i]),
    ensures
        num_run(s) is None || num_run(s) == Some(NumState::Start) || num_run(s) == Some(NumState::Prefix)
            || num_run(s) == Some(NumState::AfterSep),
    decreases s.len(),
{
    if s.len() > 0 {
        let d = s.drop_last();
        assert forall|i: int| 0 <= i < d.len() implies !is_digit(#[trigger] d[i]) by {
            assert(d[i] == s[i]);
        }
        lemma_no_digit_states(d);
        assert(!is_digit(s[s.len() - 1]));
    }
}

/// A value with no digit is not numeric content ("second").
pub proof fn lemma_no_digit_not_numeric(s: Seq<char>)
    requires
        forall|i: int| 0 <= i < s.len() ==> !is_digit(#[trigger] s[i]),
    ensures
        !is_numeric_content(s),
{
    lemma_no_digit_states(s);
}

/// Tests whether a value is numeric content (see `is_numeric_content`):
/// `Ok(0)` when it is, `Err` with the value itself otherwise.
pub fn convert_numeric<'a>(value: &'a str) -> (r: Result<i32, &'a str>)
    ensures
        is_numeric_content(value@) ==> r == Ok::<i32, &str>(0),
        !is_numeric_content(value@) ==> r == Err::<i32, &str>(value),
{
    let cs = crate::strings::chars_of(value);
    let n = cs.len();
    // read the whole value
    let mut st = NumState::Start;
    let mut ok = true;
    let mut i: usize = 0;
    while i < n
        invariant
            n == cs@.len(),
            cs@ == value@,
            i <= n,
            ok ==> num_run(cs@.subrange(0, i as int)) == Some(st),
            !ok ==> num_run(cs@.subrange(0, i as int)) is None,
        decreases n - i,
    {
        let c = cs[i];
        assert(cs@.subrange(0, i + 1).drop_last() == cs@.subrange(0, i as int));
        if ok {
            let digit = '0' <= c && c <= '9';
            let letter = ('a' <= c && c <= 'z') || ('A' <= c && c <= 'Z');
            let sep = c == ',' || c == '-' || c == '&';
            let next: Option<NumState> = match st {
                NumState::Start | NumState::Prefix | NumState::AfterSep => {
                    if digit {
                        Some(NumState::Digits)
                    } else if letter {
                        Some(NumState::Prefix)
                    } else if c == ' ' && st == NumState::AfterSep {
                        Some(NumState::AfterSep)
                    } else {
                        None
                    }
                },
                NumState::Digits | NumState::Suffix => {
                    if digit && st == NumState::Digits {
                        Some(NumState::Digits)
                    } else if letter {
                        Some(NumState::Suffix)
                    } else if c == ' ' {
                        Some(NumState::BeforeSep)
                    } else if sep {
                        Some(NumState::AfterSep)
                    } else {
                        None
                    }
                },
                NumState::BeforeSep => {
                    if c == ' ' {
                        Some(NumState::BeforeSep)
                    } else if sep {
                        Some(NumState::AfterSep)
                    } else {
                        None
                    }
                },
            };
            assert(next == num_step(st, c));
            match next {
                Some(s2) => {
                    st = s2;
                },
                None => {
                    ok = false;
                },
            }
        }
        i = i + 1;
    }
    assert(cs@.subrange(0, n as int) == cs@);
    let numeric = ok && (st == NumState::Digits || st == NumState::Suffix);
    if !numeric {
        return Err(value);
    }
    Ok(0)
}

} // verus!
