//! The intermediate representation of a cite, and the tokens collected
//! while building it.
use vstd::prelude::*;
use crate::date::Date;

verus! {

/// The intermediate representation of rendered content.
#[derive(Debug)]
pub enum IR<T> {
    /// Content that is fully rendered; `None` when nothing rendered.
    Rendered(Option<T>),
    /// A sequence of pieces that may still change.
    Sequence(Vec<IR<T>>),
}

/// Whether a group rendered any variable: `Important` when it did.
#[derive(Debug, Copy, Clone, PartialEq, Eq, Structural)]
pub enum GroupVars {
    Important,
    Missing,
}

impl GroupVars {
    /// `Important` when something rendered, else `Missing`.
    pub fn rendered_if(b: bool) -> (r: GroupVars)
        ensures
            r == (if b { GroupVars::Important } else { GroupVars::Missing }),
    {
        if b {
            GroupVars::Important
        } else {
            GroupVars::Missing
        }
    }
}

/// A piece of rendered content that helps tell references apart.
#[derive(Debug, Clone, PartialEq, Eq)]
pub enum DisambToken {
    Str(String),
    Date(Date),
}

/// A token by value.
pub enum DisambTokenV {
    Str(Seq<char>),
    Date(Date),
}

impl View for DisambToken {
    type V = DisambTokenV;

    open spec fn view(&self) -> DisambTokenV {
        match self {
            DisambToken::Str(s) => DisambTokenV::Str(s@),
            DisambToken::Date(d) => DisambTokenV::Date(*d),
        }
    }
}

/// Two tokens are the same token.
pub fn token_eq(a: &DisambToken, b: &DisambToken) -> (r: bool)
    ensures
        r == (a@ == b@),
{
    match a {
        DisambToken::Str(x) => match b {
            DisambToken::Str(y) => *x == *y,
            DisambToken::Date(_) => false,
        },
        DisambToken::Date(x) => match b {
            DisambToken::Str(_) => false,
            DisambToken::Date(y) => {
                let r = x.year == y.year && x.month == y.month && x.day == y.day;
                proof {
                    if r {
                        assert(*x == *y);
                    }
                }
                r
            },
        },
    }
}

/// The state built up while rendering one cite: the set of tokens seen.
#[derive(Debug)]
pub struct IrState {
    pub tokens: Vec<DisambToken>,
}

impl IrState {
    /// The tokens seen.
    pub open spec fn token_set(&self) -> Set<DisambTokenV> {
        self.tokens@.map_values(|t: DisambToken| t@).to_set()
    }

    /// No tokens seen yet.
    pub fn new() -> (r: IrState)
        ensures
            r.token_set() == Set::<DisambTokenV>::empty(),
    {
        let r = IrState { tokens: Vec::new() };
        assert(r.token_set() =~= Set::<DisambTokenV>::empty());
        r
    }

    /// Whether a token has been seen.
    pub fn contains(&self, t: &DisambToken) -> (r: bool)
        ensures
            r == self.token_set().contains(t@),
    {
        let mut i: usize = 0;
        while i < self.tokens.len()
            invariant
                i <= self.tokens@.len(),
                forall|j: int| 0 <= j < i ==> self.tokens@[j]@ != t@,
            decreases self.tokens.len() - i,
        {
            if token_eq(&self.tokens[i], t) {
                assert(self.tokens@.map_values(|t: DisambToken| t@)[i as int] == t@);
                return true;
            }
            i = i + 1;
        }
        assert(!self.tokens@.map_values(|t: DisambToken| t@).contains(t@));
        false
    }

    /// Records a token.
    pub fn insert(&mut self, t: DisambToken)
        ensures
            final(self).token_set() == old(self).token_set().insert(t@),
    {
        if !self.contains(&t) {
            let ghost tv = t@;
            self.tokens.push(t);
            assert(self.tokens@.map_values(|t: DisambToken| t@) == old(self).tokens@.map_values(
                |t: DisambToken| t@,
            ).push(tv));
            let ghost olds = old(self).tokens@.map_values(|t: DisambToken| t@);
            let ghost news = self.tokens@.map_values(|t: DisambToken| t@);
            assert forall|x: DisambTokenV| news.contains(x) <==> olds.contains(x) || x == tv by {
                if news.contains(x) {
                    let k = choose|k: int| 0 <= k < news.len() && news[k] == x;
                    if k < olds.len() {
                        assert(olds[k] == x);
                    }
                }
                if olds.contains(x) {
                    let k = choose|k: int| 0 <= k < olds.len() && olds[k] == x;
                    assert(news[k] == x);
                }
                if x == tv {
                    assert(news[news.len() - 1] == x);
                }
            }
            assert(self.token_set() =~= old(self).token_set().insert(tv));
        } else {
            assert(old(self).token_set().insert(t@) =~= old(self).token_set());
        }
    }
}

} // verus!
