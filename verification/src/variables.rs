//! The variables a style can test and render.
use vstd::prelude::*;

verus! {

/// Ordinary (text) variables.
#[derive(Debug, Clone, Copy, PartialEq, Eq, Structural)]
pub enum Variable {
    Abstract,
    Annote,
    Archive,
    ArchiveLocation,
    ArchivePlace,
    Authority,
    CallNumber,
    CitationLabel,
    CollectionTitle,
    ContainerTitle,
    ContainerTitleShort,
    Dimensions,
    Doi,
    Event,
    EventPlace,
    Genre,
    Isbn,
    Issn,
    Jurisdiction,
    Keyword,
    Medium,
    Note,
    OriginalPublisher,
    OriginalPublisherPlace,
    OriginalTitle,
    Pmcid,
    Pmid,
    Publisher,
    PublisherPlace,
    References,
    ReviewedTitle,
    Scale,
    Section,
    Source,
    Status,
    Title,
    TitleShort,
    Url,
    Version,
    YearSuffix,
}

/// Number variables.
#[derive(Debug, Clone, Copy, PartialEq, Eq, Structural)]
pub enum NumberVariable {
    ChapterNumber,
    CitationNumber,
    CollectionNumber,
    Edition,
    FirstReferenceNoteNumber,
    Issue,
    Locator,
    Number,
    NumberOfPages,
    NumberOfVolumes,
    Page,
    PageFirst,
    Volume,
}

/// Name variables.
#[derive(Debug, Clone, Copy, PartialEq, Eq, Structural)]
pub enum NameVariable {
    Author,
    CollectionEditor,
    Composer,
    ContainerAuthor,
    Director,
    Editor,
    EditorialDirector,
    Illustrator,
    Interviewer,
    OriginalAuthor,
    Recipient,
    ReviewedAuthor,
    Translator,
}

/// Date variables.
#[derive(Debug, Clone, Copy, PartialEq, Eq, Structural)]
pub enum DateVariable {
    Accessed,
    Container,
    EventDate,
    Issued,
    OriginalDate,
    Submitted,
}

/// Variables that `<text variable="..."/>` can render.
#[derive(Debug, Clone, Copy, PartialEq, Eq, Structural)]
pub enum StandardVariable {
    Ordinary(Variable),
    Number(NumberVariable),
}

/// Any variable at all, as tested by `<if variable="..."/>`.
#[derive(Debug, Clone, Copy, PartialEq, Eq, Structural)]
pub enum AnyVariable {
    Ordinary(Variable),
    Name(NameVariable),
    Date(DateVariable),
    Number(NumberVariable),
}

} // verus!
