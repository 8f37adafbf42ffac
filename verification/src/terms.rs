//! Locale terms as the style refers to them.
use vstd::prelude::*;

verus! {

/// The form of a term.
#[derive(Debug, Clone, Copy, PartialEq, Eq, Structural)]
pub enum TermForm {
    Long,
    Short,
    Symbol,
}

/// The forms a term can take where verb forms are also allowed.
#[derive(Debug, Clone, Copy, PartialEq, Eq, Structural)]
pub enum TermFormExtended {
    Long,
    Short,
    Symbol,
    Verb,
    VerbShort,
}

/// Locator types.
#[derive(Debug, Clone, Copy, PartialEq, Eq, Structural)]
pub enum LocatorType {
    Book,
    Chapter,
    Column,
    Figure,
    Folio,
    Issue,
    Line,
    Note,
    Opus,
    Page,
    Paragraph,
    Part,
    Section,
    SubVerbo,
    Verse,
    Volume,
}

/// Selects a term for `<text term="..."/>`: the term's name and its form.
#[derive(Debug, Clone, PartialEq, Eq)]
pub struct TextTermSelector {
    pub name: String,
    pub form: TermFormExtended,
}

} // verus!
