//! The style tree: elements, their formatting, and the options on
//! `<citation>` and `<bibliography>`.
use vstd::prelude::*;
use std::sync::Arc;
use crate::lang::Lang;
use crate::strings::byte_offset;
use crate::terms::{LocatorType, TermForm, TermFormExtended, TextTermSelector};
use crate::variables::{AnyVariable, DateVariable, NameVariable, NumberVariable, StandardVariable};

verus! {

/// Where the text of a `<cs:text>` comes from.
#[derive(Debug, Clone, PartialEq, Eq)]
pub enum TextSource {
    Macro(String),
    Value(String),
    Variable(StandardVariable, VariableForm),
    Term(TextTermSelector, bool),
}

/// An element in the body of a layout, macro, group or branch.
#[derive(Debug, PartialEq, Eq)]
pub enum Element {
    /// `<cs:text>`: source, formatting, affixes, quotes, strip-periods,
    /// text-case, display.
    Text(TextSource, Option<Formatting>, Affixes, bool, bool, TextCase, Option<DisplayMode>),
    /// `<cs:label>`: variable, form, formatting, affixes, strip-periods,
    /// text-case, plural.
    Label(NumberVariable, TermForm, Option<Formatting>, Affixes, bool, TextCase, Plural),
    /// `<cs:number>`
    Number(NumberVariable, NumericForm, Option<Formatting>, Affixes, TextCase, Option<DisplayMode>),
    /// `<cs:group>`
    Group(Group),
    /// `<cs:choose>`
    Choose(Arc<Choose>),
    /// `<cs:names>`
    Names(Arc<Names>),
    /// `<cs:date>`
    Date(Arc<BodyDate>),
}

/// `<cs:group>`
#[derive(Debug, PartialEq, Eq)]
pub struct Group {
    pub formatting: Option<Formatting>,
    pub delimiter: Delimiter,
    pub affixes: Affixes,
    pub elements: Vec<Element>,
    pub display: Option<DisplayMode>,
    /// CSL-M only
    pub is_parallel: bool,
}

fn clone_element(e: &Element) -> (r: Element)
    decreases e,
{
    match e {
        Element::Text(src, f, a, quotes, strip, case, display) => Element::Text(
            src.clone(),
            *f,
            a.clone(),
            *quotes,
            *strip,
            *case,
            *display,
        ),
        Element::Label(v, form, f, a, strip, case, plural) => Element::Label(
            *v,
            *form,
            *f,
            a.clone(),
            *strip,
            *case,
            *plural,
        ),
        Element::Number(v, form, f, a, case, display) => Element::Number(*v, *form, *f, a.clone(), *case, *display),
        Element::Group(g) => Element::Group(clone_group(g)),
        Element::Choose(c) => Element::Choose(Arc::clone(c)),
        Element::Names(n) => Element::Names(Arc::clone(n)),
        Element::Date(d) => Element::Date(Arc::clone(d)),
    }
}

fn clone_group(g: &Group) -> (r: Group)
    decreases g,
{
    Group {
        formatting: g.formatting,
        delimiter: g.delimiter.clone(),
        affixes: g.affixes.clone(),
        elements: clone_elements(&g.elements),
        display: g.display,
        is_parallel: g.is_parallel,
    }
}

fn clone_elements(v: &Vec<Element>) -> (r: Vec<Element>)
    decreases v,
{
    let mut out: Vec<Element> = Vec::new();
    let mut i: usize = 0;
    while i < v.len()
        invariant
            i <= v@.len(),
        decreases v.len() - i,
    {
        proof {
            assert(decreases_to!(v => v@));
            assert(decreases_to!(v@ => v@[i as int]));
        }
        out.push(clone_element(&v[i]));
        i = i + 1;
    }
    out
}

impl Clone for Element {
    fn clone(&self) -> Self {
        clone_element(self)
    }
}

impl Clone for Group {
    fn clone(&self) -> Self {
        clone_group(self)
    }
}

/// A `<cs:date>` in the body of a style.
#[derive(Debug, Clone, PartialEq, Eq)]
pub enum BodyDate {
    Indep(IndependentDate),
    Local(LocalizedDate),
}

/// e.g. for `<text variable="title" form="short" />`
#[derive(Debug, Copy, Clone, PartialEq, Eq, Structural)]
pub enum VariableForm {
    Long,
    Short,
}

impl Default for VariableForm {
    fn default() -> (r: Self)
        ensures
            r == VariableForm::Long,
    {
        VariableForm::Long
    }
}

#[derive(Debug, Copy, Clone, PartialEq, Eq, Structural)]
pub enum NumericForm {
    Numeric,
    Ordinal,
    Roman,
    LongOrdinal,
}

impl Default for NumericForm {
    fn default() -> (r: Self)
        ensures
            r == NumericForm::Numeric,
    {
        NumericForm::Numeric
    }
}

/// A prefix and a suffix around rendered content.
#[derive(Debug, Clone, PartialEq, Eq)]
pub struct Affixes {
    pub prefix: String,
    pub suffix: String,
}

impl Affixes {
    /// An equal copy.
    pub fn duplicate(&self) -> (r: Affixes)
        ensures
            r == *self,
    {
        Affixes { prefix: self.prefix.clone(), suffix: self.suffix.clone() }
    }
}

impl Default for Affixes {
    fn default() -> (r: Self)
        ensures
            r.prefix@ == Seq::<char>::empty(),
            r.suffix@ == Seq::<char>::empty(),
    {
        Affixes { prefix: String::new(), suffix: String::new() }
    }
}

/// Font and text formatting.
#[derive(Debug, Copy, Clone, PartialEq, Eq, Structural)]
pub struct Formatting {
    pub font_style: FontStyle,
    pub font_variant: FontVariant,
    pub font_weight: FontWeight,
    pub vertical_alignment: VerticalAlignment,
    pub text_decoration: TextDecoration,
}

/// The formatting that changes nothing.
pub open spec fn default_formatting() -> Formatting {
    Formatting {
        font_style: FontStyle::Normal,
        font_variant: FontVariant::Normal,
        font_weight: FontWeight::Normal,
        vertical_alignment: VerticalAlignment::Baseline,
        text_decoration: TextDecoration::NoDecoration,
    }
}

impl Formatting {
    /// The default formatting with a bold font weight.
    pub fn bold() -> (r: Self)
        ensures
            r == (Formatting { font_weight: FontWeight::Bold, ..default_formatting() }),
    {
        let mut f = Formatting::default();
        f.font_weight = FontWeight::Bold;
        f
    }

    /// The default formatting with an italic font style.
    pub fn italic() -> (r: Self)
        ensures
            r == (Formatting { font_style: FontStyle::Italic, ..default_formatting() }),
    {
        let mut f = Formatting::default();
        f.font_style = FontStyle::Italic;
        f
    }
}

impl Default for Formatting {
    fn default() -> (r: Self)
        ensures
            r == default_formatting(),
    {
        Formatting {
            font_style: FontStyle::default(),
            font_variant: FontVariant::default(),
            font_weight: FontWeight::default(),
            text_decoration: TextDecoration::default(),
            vertical_alignment: VerticalAlignment::default(),
        }
    }
}

/// What `{:?}` writes for an interned string holding `s`: the string in
/// quotes and how it is stored, `static` for the empty string (the one
/// string in the static set), `inline` for at most 7 bytes, `dynamic`
/// otherwise.
pub open spec fn atom_debug_text(s: Seq<char>) -> Seq<char> {
    let kind = if s.len() == 0 {
        "static"@
    } else if byte_offset(s, s.len() as int) <= 7 {
        "inline"@
    } else {
        "dynamic"@
    };
    "Atom('"@ + s + "' type="@ + kind + ")"@
}

/// The debug text of an interned string, as the style's strings were
/// held.
///
/// Trusted: formats a `string_cache::DefaultAtom` made from `s` with
/// `{:?}`, which writes `Atom('`, the string, `' type=`, how the atom is
/// stored (`static` for the empty string, the only entry of the default
/// static set; `inline` for at most 7 bytes; `dynamic` otherwise) and `)`.
#[verifier::external_body]
fn atom_debug(s: &str) -> (r: String)
    ensures
        r@ == atom_debug_text(s@),
{
    format!("{:?}", string_cache::DefaultAtom::from(s))
}

/// A field in a debug text: its label, its value and `, `, where it is
/// shown at all.
pub open spec fn debug_field(shown: bool, label: Seq<char>, value: Seq<char>) -> Seq<char> {
    if shown {
        label + value + ", "@
    } else {
        Seq::empty()
    }
}

/// The debug text of affixes: the prefix and the suffix where they are
/// not empty.
pub open spec fn affixes_debug_text(a: Affixes) -> Seq<char> {
    "Affixes { "@
        + debug_field(a.prefix@.len() > 0, "prefix: "@, atom_debug_text(a.prefix@))
        + debug_field(a.suffix@.len() > 0, "suffix: "@, atom_debug_text(a.suffix@))
        + "}"@
}

impl Affixes {
    /// The debug text: `Affixes { ` and the prefix and the suffix where
    /// they are not empty, then `}`.
    pub fn debug_string(&self) -> (r: String)
        ensures
            r@ == affixes_debug_text(*self),
    {
        let mut s = String::new();
        s.append("Affixes { ");
        let ghost start = s@;
        if self.prefix.unicode_len() > 0 {
            s.append("prefix: ");
            let p = atom_debug(self.prefix.as_str());
            s.append(p.as_str());
            s.append(", ");
        }
        assert(s@ == start + debug_field(self.prefix@.len() > 0, "prefix: "@, atom_debug_text(self.prefix@)));
        let ghost mid = s@;
        if self.suffix.unicode_len() > 0 {
            s.append("suffix: ");
            let p = atom_debug(self.suffix.as_str());
            s.append(p.as_str());
            s.append(", ");
        }
        assert(s@ == mid + debug_field(self.suffix@.len() > 0, "suffix: "@, atom_debug_text(self.suffix@)));
        s.append("}");
        s
    }
}

/// The name of a font style, as `{:?}` writes it.
pub open spec fn font_style_name(v: FontStyle) -> Seq<char> {
    match v {
        FontStyle::Normal => "Normal"@,
        FontStyle::Italic => "Italic"@,
        FontStyle::Oblique => "Oblique"@,
    }
}

/// The name of a font variant, as `{:?}` writes it.
pub open spec fn font_variant_name(v: FontVariant) -> Seq<char> {
    match v {
        FontVariant::Normal => "Normal"@,
        FontVariant::SmallCaps => "SmallCaps"@,
    }
}

/// The name of a font weight, as `{:?}` writes it.
pub open spec fn font_weight_name(v: FontWeight) -> Seq<char> {
    match v {
        FontWeight::Normal => "Normal"@,
        FontWeight::Bold => "Bold"@,
        FontWeight::Light => "Light"@,
    }
}

/// The name of a text decoration, as `{:?}` writes it; no decoration is
/// `None`.
pub open spec fn text_decoration_name(v: TextDecoration) -> Seq<char> {
    match v {
        TextDecoration::NoDecoration => "None"@,
        TextDecoration::Underline => "Underline"@,
    }
}

/// The name of a vertical alignment, as `{:?}` writes it.
pub open spec fn vertical_alignment_name(v: VerticalAlignment) -> Seq<char> {
    match v {
        VerticalAlignment::Baseline => "Baseline"@,
        VerticalAlignment::Superscript => "Superscript"@,
        VerticalAlignment::Subscript => "Subscript"@,
    }
}

/// The debug text of a formatting: each property that differs from the
/// default, in the order font style, variant, weight, decoration,
/// alignment.
pub open spec fn formatting_debug_text(f: Formatting) -> Seq<char> {
    let d = default_formatting();
    "Formatting { "@
        + debug_field(f.font_style != d.font_style, "font_style: "@, font_style_name(f.font_style))
        + debug_field(f.font_variant != d.font_variant, "font_variant: "@, font_variant_name(f.font_variant))
        + debug_field(f.font_weight != d.font_weight, "font_weight: "@, font_weight_name(f.font_weight))
        + debug_field(
            f.text_decoration != d.text_decoration,
            "text_decoration: "@,
            text_decoration_name(f.text_decoration),
        )
        + debug_field(
            f.vertical_alignment != d.vertical_alignment,
            "vertical_alignment: "@,
            vertical_alignment_name(f.vertical_alignment),
        )
        + "}"@
}

fn font_style_str(v: FontStyle) -> (r: &'static str)
    ensures
        r@ == font_style_name(v),
{
    match v {
        FontStyle::Normal => "Normal",
        FontStyle::Italic => "Italic",
        FontStyle::Oblique => "Oblique",
    }
}

fn font_variant_str(v: FontVariant) -> (r: &'static str)
    ensures
        r@ == font_variant_name(v),
{
    match v {
        FontVariant::Normal => "Normal",
        FontVariant::SmallCaps => "SmallCaps",
    }
}

fn font_weight_str(v: FontWeight) -> (r: &'static str)
    ensures
        r@ == font_weight_name(v),
{
    match v {
        FontWeight::Normal => "Normal",
        FontWeight::Bold => "Bold",
        FontWeight::Light => "Light",
    }
}

fn text_decoration_str(v: TextDecoration) -> (r: &'static str)
    ensures
        r@ == text_decoration_name(v),
{
    match v {
        TextDecoration::NoDecoration => "None",
        TextDecoration::Underline => "Underline",
    }
}

fn vertical_alignment_str(v: VerticalAlignment) -> (r: &'static str)
    ensures
        r@ == vertical_alignment_name(v),
{
    match v {
        VerticalAlignment::Baseline => "Baseline",
        VerticalAlignment::Superscript => "Superscript",
        VerticalAlignment::Subscript => "Subscript",
    }
}

fn push_debug_field(s: &mut String, shown: bool, label: &str, value: &str)
    ensures
        final(s)@ == old(s)@ + debug_field(shown, label@, value@),
{
    if shown {
        s.append(label);
        s.append(value);
        s.append(", ");
    }
}

impl Formatting {
    /// The debug text: `Formatting { `, each property that differs from
    /// the default as `name: Value, `, then `}`.
    pub fn debug_string(&self) -> (r: String)
        ensures
            r@ == formatting_debug_text(*self),
    {
        let d = Formatting::default();
        let mut s = String::new();
        s.append("Formatting { ");
        push_debug_field(&mut s, self.font_style != d.font_style, "font_style: ", font_style_str(self.font_style));
        push_debug_field(&mut s, self.font_variant != d.font_variant, "font_variant: ", font_variant_str(self.font_variant));
        push_debug_field(&mut s, self.font_weight != d.font_weight, "font_weight: ", font_weight_str(self.font_weight));
        push_debug_field(
            &mut s,
            self.text_decoration != d.text_decoration,
            "text_decoration: ",
            text_decoration_str(self.text_decoration),
        );
        push_debug_field(
            &mut s,
            self.vertical_alignment != d.vertical_alignment,
            "vertical_alignment: ",
            vertical_alignment_str(self.vertical_alignment),
        );
        s.append("}");
        s
    }
}

#[derive(Debug, Copy, Clone, PartialEq, Eq, Structural)]
pub enum DisplayMode {
    Block,
    LeftMargin,
    RightInline,
    Indent,
}

#[derive(Debug, Copy, Clone, PartialEq, Eq, Structural)]
pub enum TextCase {
    /// `text-case` not given (`None` in the CSL grammar)
    NoCase,
    Lowercase,
    Uppercase,
    CapitalizeFirst,
    CapitalizeAll,
    Sentence,
    Title,
}

impl Default for TextCase {
    fn default() -> (r: Self)
        ensures
            r == TextCase::NoCase,
    {
        TextCase::NoCase
    }
}

#[derive(Debug, Copy, Clone, PartialEq, Eq, Structural)]
pub enum FontStyle {
    Normal,
    Italic,
    Oblique,
}

impl Default for FontStyle {
    fn default() -> (r: Self)
        ensures
            r == FontStyle::Normal,
    {
        FontStyle::Normal
    }
}

#[derive(Debug, Copy, Clone, PartialEq, Eq, Structural)]
pub enum FontVariant {
    Normal,
    SmallCaps,
}

impl Default for FontVariant {
    fn default() -> (r: Self)
        ensures
            r == FontVariant::Normal,
    {
        FontVariant::Normal
    }
}

#[derive(Debug, Copy, Clone, PartialEq, Eq, Structural)]
pub enum FontWeight {
    Normal,
    Bold,
    Light,
}

impl Default for FontWeight {
    fn default() -> (r: Self)
        ensures
            r == FontWeight::Normal,
    {
        FontWeight::Normal
    }
}

#[derive(Debug, Copy, Clone, PartialEq, Eq, Structural)]
pub enum TextDecoration {
    /// `text-decoration="none"`
    NoDecoration,
    Underline,
}

impl Default for TextDecoration {
    fn default() -> (r: Self)
        ensures
            r == TextDecoration::NoDecoration,
    {
        TextDecoration::NoDecoration
    }
}

#[derive(Debug, Copy, Clone, PartialEq, Eq, Structural)]
pub enum VerticalAlignment {
    Baseline,
    Superscript,
    Subscript,
}

impl Default for VerticalAlignment {
    fn default() -> (r: Self)
        ensures
            r == VerticalAlignment::Baseline,
    {
        VerticalAlignment::Baseline
    }
}

/// A delimiter between rendered items.
#[derive(Debug, Clone, PartialEq, Eq)]
pub struct Delimiter(pub String);

impl Delimiter {
    /// An equal copy.
    pub fn duplicate(&self) -> (r: Delimiter)
        ensures
            r == *self,
    {
        Delimiter(self.0.clone())
    }
}

impl Default for Delimiter {
    fn default() -> (r: Self)
        ensures
            r.0@ == Seq::<char>::empty(),
    {
        Delimiter(String::new())
    }
}

#[derive(Debug, Copy, Clone, PartialEq, Eq, Structural)]
pub enum Plural {
    Contextual,
    Always,
    Never,
}

impl Default for Plural {
    fn default() -> (r: Self)
        ensures
            r == Plural::Contextual,
    {
        Plural::Contextual
    }
}

/// A condition of `<cs:if>` or `<cs:else-if>`.
#[derive(Debug, Clone, PartialEq, Eq)]
pub struct Condition {
    pub match_type: Match,
    pub disambiguate: Option<bool>,
    pub is_numeric: Vec<AnyVariable>,
    pub variable: Vec<AnyVariable>,
    pub position: Vec<Position>,
    pub csl_type: Vec<CslType>,
    pub locator: Vec<LocatorType>,
    pub is_uncertain_date: Vec<DateVariable>,
    pub jurisdiction: Option<String>,
    pub subjurisdictions: Option<u32>,
    /// CSL-M `has-year-only`
    pub has_year_only: Vec<DateVariable>,
    /// CSL-M `has-day`
    pub has_day: Vec<DateVariable>,
    /// CSL-M `has-to-month-or-season`
    pub has_month_or_season: Vec<DateVariable>,
    pub context: Option<Context>,
    /// CSL-M `is-plural`
    pub is_plural: Vec<NameVariable>,
}

/// A condition is empty exactly when it lists no test at all: no
/// `disambiguate`, no variable, numeric, position, type, locator or date
/// test, no jurisdiction, no plural test and no context. Any one test
/// makes it non-empty; the match type does not count.
pub proof fn lemma_condition_empty_exactly(c: Condition)
    ensures
        c.tests_nothing() <==> (c.disambiguate == None::<bool> && c.is_numeric@ == Seq::<AnyVariable>::empty()
            && c.variable@ == Seq::<AnyVariable>::empty() && c.position@ == Seq::<Position>::empty()
            && c.csl_type@ == Seq::<CslType>::empty() && c.locator@ == Seq::<LocatorType>::empty()
            && c.is_uncertain_date@ == Seq::<DateVariable>::empty() && c.has_year_only@ == Seq::<
            DateVariable,
        >::empty() && c.has_day@ == Seq::<DateVariable>::empty() && c.has_month_or_season@ == Seq::<
            DateVariable,
        >::empty() && c.jurisdiction == None::<String> && c.subjurisdictions == None::<u32>
            && c.is_plural@ == Seq::<NameVariable>::empty() && c.context == None::<Context>),
{
    if c.csl_type@.len() == 0 {
        assert(c.csl_type@ =~= Seq::<CslType>::empty());
    }
    if c.is_numeric@.len() == 0 {
        assert(c.is_numeric@ =~= Seq::<AnyVariable>::empty());
    }
    if c.variable@.len() == 0 {
        assert(c.variable@ =~= Seq::<AnyVariable>::empty());
    }
    if c.position@.len() == 0 {
        assert(c.position@ =~= Seq::<Position>::empty());
    }
    if c.locator@.len() == 0 {
        assert(c.locator@ =~= Seq::<LocatorType>::empty());
    }
    if c.is_uncertain_date@.len() == 0 {
        assert(c.is_uncertain_date@ =~= Seq::<DateVariable>::empty());
    }
    if c.has_year_only@.len() == 0 {
        assert(c.has_year_only@ =~= Seq::<DateVariable>::empty());
    }
    if c.has_day@.len() == 0 {
        assert(c.has_day@ =~= Seq::<DateVariable>::empty());
    }
    if c.has_month_or_season@.len() == 0 {
        assert(c.has_month_or_season@ =~= Seq::<DateVariable>::empty());
    }
    if c.is_plural@.len() == 0 {
        assert(c.is_plural@ =~= Seq::<NameVariable>::empty());
    }
}

#[derive(Debug, Copy, Clone, PartialEq, Eq, Structural)]
pub enum Context {
    Citation,
    Bibliography,
}

impl Condition {
    /// A condition tests nothing when none of its tests is given; the
    /// match type does not count.
    pub open spec fn tests_nothing(&self) -> bool {
        &&& self.disambiguate is None
        &&& self.is_numeric@.len() == 0
        &&& self.variable@.len() == 0
        &&& self.position@.len() == 0
        &&& self.csl_type@.len() == 0
        &&& self.locator@.len() == 0
        &&& self.is_uncertain_date@.len() == 0
        &&& self.has_year_only@.len() == 0
        &&& self.has_day@.len() == 0
        &&& self.has_month_or_season@.len() == 0
        &&& self.jurisdiction is None
        &&& self.subjurisdictions is None
        &&& self.is_plural@.len() == 0
        &&& self.context is None
    }

    /// Whether this condition holds no test at all.
    pub fn is_empty(&self) -> (r: bool)
        ensures
            r == self.tests_nothing(),
    {
        self.disambiguate.is_none() && self.is_numeric.is_empty() && self.variable.is_empty()
            && self.position.is_empty() && self.csl_type.is_empty() && self.locator.is_empty()
            && self.is_uncertain_date.is_empty() && self.has_year_only.is_empty()
            && self.has_day.is_empty() && self.has_month_or_season.is_empty()
            && self.jurisdiction.is_none() && self.subjurisdictions.is_none()
            && self.is_plural.is_empty() && self.context.is_none()
    }
}

#[derive(Debug, Copy, Clone, PartialEq, Eq, Structural)]
pub enum Match {
    Any,
    All,
    /// `match="none"`
    NoneOf,
    /// CSL-M only
    Nand,
}

impl Default for Match {
    fn default() -> (r: Self)
        ensures
            r == Match::Any,
    {
        Match::Any
    }
}

/// `<cs:if>` or `<cs:else-if>` with its body.
#[derive(Debug, Clone, PartialEq, Eq)]
pub struct IfThen(pub Conditions, pub Vec<Element>);

#[derive(Debug, Clone, PartialEq, Eq)]
pub struct Conditions(pub Match, pub Vec<Condition>);

#[derive(Debug, Clone, PartialEq, Eq)]
pub struct Else(pub Vec<Element>);

/// `<cs:choose>`: the `if`, the `else-if`s and the `else`.
#[derive(Debug, Clone, PartialEq, Eq)]
pub struct Choose(pub IfThen, pub Vec<IfThen>, pub Else);

/// `<cs:names>`
#[derive(Debug, Clone, PartialEq, Eq)]
pub struct Names {
    pub delimiter: Option<Delimiter>,
    pub variables: Vec<NameVariable>,
    pub name: Option<crate::name::Name>,
    pub institution: Option<Institution>,
    pub label: Option<NameLabel>,
    pub et_al: Option<NameEtAl>,
    pub with: Option<NameWith>,
    pub substitute: Option<Substitute>,
    pub formatting: Option<Formatting>,
    pub display: Option<DisplayMode>,
    pub affixes: Affixes,
}

#[derive(Debug, Copy, Clone, PartialEq, Eq, Structural)]
pub enum NameAnd {
    Text,
    Symbol,
}

/// `<cs:with>`
#[derive(Debug, Clone, PartialEq, Eq)]
pub struct NameWith {
    pub formatting: Option<Formatting>,
    pub affixes: Affixes,
}

/// `<cs:institution>`
#[derive(Debug, Clone, PartialEq, Eq)]
pub struct Institution {
    pub and: Option<NameAnd>,
    pub delimiter: Option<Delimiter>,
    pub use_first: Option<InstitutionUseFirst>,
    /// Plucks institution segments from the end, as `use_first` does from
    /// the start.
    pub use_last: Option<u32>,
    pub reverse_order: bool,
    pub parts_selector: InstitutionParts,
    pub institution_parts: Vec<InstitutionPart>,
}

#[derive(Debug, Clone, PartialEq, Eq)]
pub struct InstitutionPart {
    pub name: InstitutionPartName,
    pub formatting: Option<Formatting>,
    pub affixes: Affixes,
    pub strip_periods: bool,
}

#[derive(Debug, Copy, Clone, PartialEq, Eq, Structural)]
pub enum InstitutionPartName {
    /// The flag says whether the long form is used only when a short form
    /// exists.
    Long(bool),
    Short,
}

impl Default for InstitutionPartName {
    fn default() -> (r: Self)
        ensures
            r == InstitutionPartName::Long(false),
    {
        InstitutionPartName::Long(false)
    }
}

#[derive(Debug, Copy, Clone, PartialEq, Eq, Structural)]
pub enum InstitutionParts {
    Long,
    Short,
    ShortLong,
    LongShort,
}

impl Default for InstitutionParts {
    fn default() -> (r: Self)
        ensures
            r == InstitutionParts::Long,
    {
        InstitutionParts::Long
    }
}

#[derive(Debug, Copy, Clone, PartialEq, Eq, Structural)]
pub enum InstitutionUseFirst {
    /// Set with `use-first="1"`
    Normal(u32),
    /// Set with `substitute-use-first="1"`: includes the leading subunit if
    /// and only if no personal names are associated with the organization.
    Substitute(u32),
}

/// `<cs:label>` inside `<cs:names>`
#[derive(Debug, Clone, PartialEq, Eq)]
pub struct NameLabel {
    pub form: TermFormExtended,
    pub formatting: Option<Formatting>,
    pub delimiter: Delimiter,
    pub plural: Plural,
    pub strip_periods: bool,
}

/// `<cs:et-al>`
#[derive(Debug, Clone, PartialEq, Eq)]
pub struct NameEtAl {
    pub term: String,
    pub formatting: Option<Formatting>,
}

#[derive(Debug, Copy, Clone, PartialEq, Eq, Structural)]
pub enum DemoteNonDroppingParticle {
    Never,
    SortOnly,
    DisplayAndSort,
}

impl Default for DemoteNonDroppingParticle {
    fn default() -> (r: Self)
        ensures
            r == DemoteNonDroppingParticle::DisplayAndSort,
    {
        DemoteNonDroppingParticle::DisplayAndSort
    }
}

#[derive(Debug, Copy, Clone, PartialEq, Eq, Structural)]
pub enum DelimiterPrecedes {
    Contextual,
    AfterInvertedName,
    Always,
    Never,
}

impl Default for DelimiterPrecedes {
    fn default() -> (r: Self)
        ensures
            r == DelimiterPrecedes::Contextual,
    {
        DelimiterPrecedes::Contextual
    }
}

#[derive(Debug, Copy, Clone, PartialEq, Eq, Structural)]
pub enum NameForm {
    Long,
    Short,
    Count,
}

#[derive(Debug, Copy, Clone, PartialEq, Eq, Structural)]
pub enum NameAsSortOrder {
    First,
    All,
}

#[derive(Debug, Copy, Clone, PartialEq, Eq, Structural)]
pub enum NamePartName {
    Given,
    Family,
}

/// `<cs:name-part>`
#[derive(Debug, Clone, PartialEq, Eq)]
pub struct NamePart {
    pub name: NamePartName,
    pub affixes: Affixes,
    pub text_case: TextCase,
    pub formatting: Option<Formatting>,
}

impl NamePart {
    /// An equal copy.
    pub fn duplicate(&self) -> (r: NamePart)
        ensures
            r == *self,
    {
        NamePart {
            name: self.name,
            affixes: self.affixes.duplicate(),
            text_case: self.text_case,
            formatting: self.formatting,
        }
    }
}

/// `<cs:substitute>`
#[derive(Debug, Clone, PartialEq, Eq)]
pub struct Substitute(pub Vec<Element>);

#[derive(Debug, Copy, Clone, PartialEq, Eq, Structural)]
pub enum GivenNameDisambiguationRule {
    AllNames,
    AllNamesWithInitials,
    PrimaryName,
    PrimaryNameWithInitials,
    ByCite,
}

impl Default for GivenNameDisambiguationRule {
    fn default() -> (r: Self)
        ensures
            r == GivenNameDisambiguationRule::ByCite,
    {
        GivenNameDisambiguationRule::ByCite
    }
}

/// `<cs:citation>`
#[derive(Debug, Clone, PartialEq, Eq)]
pub struct Citation {
    pub disambiguate_add_names: bool,
    pub disambiguate_add_givenname: bool,
    pub givenname_disambiguation_rule: GivenNameDisambiguationRule,
    pub disambiguate_add_year_suffix: bool,
    pub layout: Layout,
    pub name_inheritance: crate::name::Name,
    pub names_delimiter: Option<Delimiter>,
}

impl Default for Citation {
    fn default() -> (r: Self)
        ensures
            !r.disambiguate_add_names,
            !r.disambiguate_add_givenname,
            r.givenname_disambiguation_rule == GivenNameDisambiguationRule::ByCite,
            !r.disambiguate_add_year_suffix,
            r.layout.is_empty(),
            r.name_inheritance.is_unset(),
            r.names_delimiter is None,
    {
        Citation {
            disambiguate_add_names: false,
            disambiguate_add_givenname: false,
            givenname_disambiguation_rule: GivenNameDisambiguationRule::default(),
            disambiguate_add_year_suffix: false,
            layout: Layout::default(),
            name_inheritance: crate::name::Name::default(),
            names_delimiter: None,
        }
    }
}

/// `<cs:bibliography>`
#[derive(Debug, Clone, PartialEq, Eq)]
pub struct Bibliography {
    pub sort: Option<Sort>,
    pub layout: Layout,
    /// default is false
    pub hanging_indent: bool,
    pub second_field_align: Option<SecondFieldAlign>,
    /// at least 1; default is 1
    pub line_spaces: u32,
    /// default is 1
    pub entry_spacing: u32,
    pub name_inheritance: crate::name::Name,
    pub subsequent_author_substitute: Option<String>,
    pub subsequent_author_substitute_rule: SubstituteAuthorSubstituteRule,
    pub names_delimiter: Option<Delimiter>,
}

#[derive(Debug, Copy, Clone, PartialEq, Eq, Structural)]
pub enum SecondFieldAlign {
    Flush,
    Margin,
}

#[derive(Debug, Copy, Clone, PartialEq, Eq, Structural)]
pub enum SubstituteAuthorSubstituteRule {
    CompleteAll,
    CompleteEach,
    PartialEach,
    PartialFirst,
}

impl Default for SubstituteAuthorSubstituteRule {
    fn default() -> (r: Self)
        ensures
            r == SubstituteAuthorSubstituteRule::CompleteAll,
    {
        SubstituteAuthorSubstituteRule::CompleteAll
    }
}

/// `<cs:sort>`
#[derive(Debug, Clone, PartialEq, Eq)]
pub struct Sort {
    pub keys: Vec<SortKey>,
}

/// `<cs:key>`
#[derive(Debug, Clone, PartialEq, Eq)]
pub struct SortKey {
    pub sort_source: SortSource,
    pub names_min: Option<u32>,
    pub names_use_first: Option<u32>,
    pub names_use_last: Option<u32>,
    pub sort: Option<SortDirection>,
}

/// A sort key sorts on either a variable or a macro.
#[derive(Debug, Clone, PartialEq, Eq)]
pub enum SortSource {
    Variable(AnyVariable),
    Macro(String),
}

#[derive(Debug, Copy, Clone, PartialEq, Eq, Structural)]
pub enum SortDirection {
    Ascending,
    Descending,
}

impl Default for SortDirection {
    fn default() -> (r: Self)
        ensures
            r == SortDirection::Ascending,
    {
        SortDirection::Ascending
    }
}

/// `<cs:layout>`
#[derive(Debug, Clone, PartialEq, Eq)]
pub struct Layout {
    pub affixes: Affixes,
    pub formatting: Option<Formatting>,
    pub delimiter: Delimiter,
    pub elements: Vec<Element>,
    pub locale: Vec<Lang>,
}

impl Layout {
    /// A layout with no affixes, formatting, delimiter, elements or locales.
    pub open spec fn is_empty(&self) -> bool {
        &&& self.affixes.prefix@.len() == 0
        &&& self.affixes.suffix@.len() == 0
        &&& self.formatting is None
        &&& self.delimiter.0@.len() == 0
        &&& self.elements@.len() == 0
        &&& self.locale@.len() == 0
    }
}

impl Default for Layout {
    fn default() -> (r: Self)
        ensures
            r.is_empty(),
    {
        Layout {
            affixes: Affixes::default(),
            formatting: None,
            delimiter: Delimiter::default(),
            elements: Vec::new(),
            locale: Vec::new(),
        }
    }
}

/// A named macro of a style.
#[derive(Debug, Clone, PartialEq, Eq)]
pub struct MacroMap {
    pub name: String,
    pub elements: Vec<Element>,
}

#[derive(Debug, Copy, Clone, PartialEq, Eq, Structural)]
pub enum StyleClass {
    InText,
    Note,
}

impl Default for StyleClass {
    fn default() -> (r: Self)
        ensures
            r == StyleClass::Note,
    {
        StyleClass::Note
    }
}

/// `<cs:info>`
#[derive(Debug, Copy, Clone, PartialEq, Eq, Structural)]
pub struct Info {}

/// A whole style. Where a macro name or a locale override occurs more
/// than once, the first counts.
#[derive(Debug, Clone, PartialEq, Eq)]
pub struct Style {
    pub class: StyleClass,
    pub macros: Vec<MacroMap>,
    pub citation: Citation,
    pub bibliography: Option<Bibliography>,
    pub info: Info,
    pub name_inheritance: crate::name::Name,
    pub names_delimiter: Option<Delimiter>,
    /// `None` is the locale that overrides every language.
    pub locale_overrides: Vec<(Option<Lang>, crate::locale::Locale)>,
    pub default_locale: Lang,
    pub page_range_format: Option<PageRangeFormat>,
    pub demote_non_dropping_particle: DemoteNonDroppingParticle,
    /// default is true
    pub initialize_with_hyphen: bool,
}

impl Default for Style {
    /// A note style with no macros, bibliography or locale overrides, the
    /// default citation and name options, and the `en-US` locale.
    fn default() -> (r: Self)
        ensures
            r.class == StyleClass::Note,
            r.macros@.len() == 0,
            !r.citation.disambiguate_add_names,
            !r.citation.disambiguate_add_givenname,
            r.citation.givenname_disambiguation_rule == GivenNameDisambiguationRule::ByCite,
            !r.citation.disambiguate_add_year_suffix,
            r.citation.layout.is_empty(),
            r.citation.name_inheritance.is_unset(),
            r.citation.names_delimiter is None,
            r.bibliography is None,
            r.name_inheritance.is_unset(),
            r.names_delimiter is None,
            r.locale_overrides@.len() == 0,
            r.default_locale == crate::lang::en_us_spec(),
            r.page_range_format is None,
            r.demote_non_dropping_particle == DemoteNonDroppingParticle::DisplayAndSort,
            r.initialize_with_hyphen,
    {
        Style {
            class: StyleClass::default(),
            macros: Vec::new(),
            citation: Citation::default(),
            bibliography: None,
            info: Info {},
            name_inheritance: crate::name::Name::default(),
            names_delimiter: None,
            locale_overrides: Vec::new(),
            default_locale: Lang::default(),
            page_range_format: None,
            demote_non_dropping_particle: DemoteNonDroppingParticle::default(),
            initialize_with_hyphen: true,
        }
    }
}

/// The delimiter of a date range.
#[derive(Debug, Clone, PartialEq, Eq)]
pub struct RangeDelimiter(pub String);

impl Default for RangeDelimiter {
    /// An en dash.
    fn default() -> (r: Self)
        ensures
            r.0@ == seq!['\u{2013}'],
    {
        let mut s = String::new();
        crate::strings::push_char(&mut s, '\u{2013}');
        RangeDelimiter(s)
    }
}

impl RangeDelimiter {
    /// The delimiter's text.
    pub fn as_ref(&self) -> (r: &str)
        ensures
            r@ == self.0@,
    {
        self.0.as_str()
    }

    /// Any text is a range delimiter.
    pub fn from_str(s: &str) -> (r: Result<RangeDelimiter, crate::lang::UnknownAttributeValue>)
        ensures
            r matches Ok(d) && d.0@ == s@,
    {
        Ok(RangeDelimiter(String::from_str(s)))
    }
}

#[derive(Debug, Copy, Clone, PartialEq, Eq, Structural)]
pub enum DateParts {
    YearMonthDay,
    YearMonth,
    Year,
}

impl Default for DateParts {
    fn default() -> (r: Self)
        ensures
            r == DateParts::YearMonthDay,
    {
        DateParts::YearMonthDay
    }
}

#[derive(Debug, Copy, Clone, PartialEq, Eq, Structural)]
pub enum DayForm {
    Numeric,
    NumericLeadingZeros,
    Ordinal,
}

impl Default for DayForm {
    fn default() -> (r: Self)
        ensures
            r == DayForm::Numeric,
    {
        DayForm::Numeric
    }
}

#[derive(Debug, Copy, Clone, PartialEq, Eq, Structural)]
pub enum MonthForm {
    Long,
    Short,
    Numeric,
    NumericLeadingZeros,
}

impl Default for MonthForm {
    fn default() -> (r: Self)
        ensures
            r == MonthForm::Long,
    {
        MonthForm::Long
    }
}

#[derive(Debug, Copy, Clone, PartialEq, Eq, Structural)]
pub enum YearForm {
    Long,
    Short,
}

impl Default for YearForm {
    fn default() -> (r: Self)
        ensures
            r == YearForm::Long,
    {
        YearForm::Long
    }
}

#[derive(Debug, Copy, Clone, PartialEq, Eq, Structural)]
pub enum DateForm {
    Text,
    Numeric,
}

/// The name and form of a `<cs:date-part>`; the month's flag is
/// strip-periods.
#[derive(Debug, Copy, Clone, PartialEq, Eq, Structural)]
pub enum DatePartForm {
    Day(DayForm),
    Month(MonthForm, bool),
    Year(YearForm),
}

/// `<cs:date-part>`
#[derive(Debug, Clone, PartialEq, Eq)]
pub struct DatePart {
    pub form: DatePartForm,
    pub affixes: Affixes,
    pub formatting: Option<Formatting>,
    pub text_case: TextCase,
    pub range_delimiter: RangeDelimiter,
}

/// A date element that fully defines its own output, independent of any
/// localization.
#[derive(Debug, Clone, PartialEq, Eq)]
pub struct IndependentDate {
    pub variable: DateVariable,
    pub date_parts: Vec<DatePart>,
    pub delimiter: Delimiter,
    pub affixes: Affixes,
    pub formatting: Option<Formatting>,
    pub display: Option<DisplayMode>,
    pub text_case: TextCase,
}

/// A date element in the body of a style that refers to a locale's date
/// format.
#[derive(Debug, Clone, PartialEq, Eq)]
pub struct LocalizedDate {
    pub variable: DateVariable,
    pub parts_selector: DateParts,
    pub date_parts: Vec<DatePart>,
    pub form: DateForm,
    pub affixes: Affixes,
    pub formatting: Option<Formatting>,
    pub display: Option<DisplayMode>,
    pub text_case: TextCase,
}

#[derive(Debug, Copy, Clone, PartialEq, Eq, Structural)]
pub enum Position {
    First,
    Ibid,
    IbidWithLocator,
    Subsequent,
    NearNote,
    /// CSL-M only
    FarNote,
}

/// Whether a cite in position `actual` passes the test `position="cond"`.
pub open spec fn position_matches(actual: Position, cond: Position) -> bool {
    match (actual, cond) {
        (Position::IbidWithLocator, Position::Ibid) => true,
        (Position::IbidWithLocator, Position::Subsequent) => true,
        (Position::Ibid, Position::Subsequent) => true,
        (Position::FarNote, Position::Subsequent) => true,
        (Position::NearNote, Position::Subsequent) => true,
        (x, y) => x == y,
    }
}

impl Position {
    /// Whether a cite in this position passes the test `position="in_cond"`.
    pub fn matches(self, in_cond: Self) -> (r: bool)
        ensures
            r == position_matches(self, in_cond),
    {
        match (self, in_cond) {
            (Position::IbidWithLocator, Position::Ibid) => true,
            (Position::IbidWithLocator, Position::Subsequent) => true,
            (Position::Ibid, Position::Subsequent) => true,
            (Position::FarNote, Position::Subsequent) => true,
            (Position::NearNote, Position::Subsequent) => true,
            (x, y) => x == y,
        }
    }
}

/// Whenever `position="ibid-with-locator"` tests true, `position="ibid"`
/// also tests true; and whenever `position="ibid"` or
/// `position="near-note"` tests true, `position="subsequent"` also tests
/// true, as does `position="far-note"`. Every position passes the test
/// for itself, and the first position passes no other.
pub proof fn lemma_position_implications(p: Position)
    ensures
        position_matches(p, p),
        position_matches(p, Position::IbidWithLocator) ==> position_matches(p, Position::Ibid),
        position_matches(p, Position::Ibid) ==> position_matches(p, Position::Subsequent),
        position_matches(p, Position::NearNote) ==> position_matches(p, Position::Subsequent),
        position_matches(p, Position::FarNote) ==> position_matches(p, Position::Subsequent),
        position_matches(Position::First, p) <==> p == Position::First,
{
}

/// A cite passes a position test exactly when its position is the one
/// tested, or when it is ibid-with-locator and the test is ibid or
/// subsequent, or ibid, far-note or near-note and the test is subsequent.
/// In particular only ibid and ibid-with-locator pass `position="ibid"`.
pub proof fn lemma_position_matches_exactly(p: Position, c: Position)
    ensures
        position_matches(p, c) <==> (p == c || (p == Position::IbidWithLocator && c == Position::Ibid)
            || (p == Position::IbidWithLocator && c == Position::Subsequent) || (p == Position::Ibid && c
            == Position::Subsequent) || (p == Position::FarNote && c == Position::Subsequent) || (p
            == Position::NearNote && c == Position::Subsequent)),
        position_matches(p, Position::Ibid) ==> (p == Position::Ibid || p == Position::IbidWithLocator),
        position_matches(p, Position::IbidWithLocator) ==> p == Position::IbidWithLocator,
        position_matches(p, Position::First) ==> p == Position::First,
{
}

/// Page range formats.
#[derive(Debug, Copy, Clone, PartialEq, Eq, Structural)]
pub enum PageRangeFormat {
    Chicago,
    Expanded,
    Minimal,
    MinimalTwo,
}

/// Item types.
#[derive(Debug, Copy, Clone, PartialEq, Eq, Structural)]
pub enum CslType {
    Article,
    ArticleMagazine,
    ArticleNewspaper,
    ArticleJournal,
    Bill,
    Book,
    Broadcast,
    Chapter,
    Dataset,
    Entry,
    EntryDictionary,
    EntryEncyclopedia,
    Figure,
    Graphic,
    Interview,
    Legislation,
    LegalCase,
    Manuscript,
    /// the `map` item type
    MapItem,
    MotionPicture,
    MusicalScore,
    Pamphlet,
    PaperConference,
    Patent,
    Post,
    PostWeblog,
    PersonalCommunication,
    Report,
    Review,
    ReviewBook,
    Song,
    Speech,
    Thesis,
    Treaty,
    Webpage,
    /// CSL-M only
    Classic,
    /// CSL-M only
    Gazette,
    /// CSL-M only
    Hearing,
    /// CSL-M only
    Regulation,
    /// CSL-M only
    Video,
}

} // verus!
