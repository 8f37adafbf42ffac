//! `<cs:name>` options, their defaults and their inheritance.
use vstd::prelude::*;
use crate::style::{
    Affixes, Delimiter, DelimiterPrecedes, Formatting, NameAnd, NameAsSortOrder, NameForm,
    NamePart,
};

verus! {

/// The options of `<cs:name>`. Every option but the last four may be
/// inherited from `<cs:style>`, `<cs:citation>` or `<cs:bibliography>`;
/// `None` means "not set here".
#[derive(Debug, Clone, PartialEq, Eq)]
pub struct Name {
    pub and: Option<NameAnd>,
    pub delimiter: Option<Delimiter>,
    pub delimiter_precedes_et_al: Option<DelimiterPrecedes>,
    pub delimiter_precedes_last: Option<DelimiterPrecedes>,
    pub et_al_min: Option<u32>,
    pub et_al_use_first: Option<u32>,
    /// default is false
    pub et_al_use_last: Option<bool>,
    pub et_al_subsequent_min: Option<u32>,
    pub et_al_subsequent_use_first: Option<u32>,
    pub form: Option<NameForm>,
    /// default is true
    pub initialize: Option<bool>,
    pub initialize_with: Option<String>,
    pub name_as_sort_order: Option<NameAsSortOrder>,
    pub sort_separator: Option<String>,
    pub formatting: Option<Formatting>,
    pub affixes: Affixes,
    pub name_part_given: Option<NamePart>,
    pub name_part_family: Option<NamePart>,
}

/// `over` where it is set, else `under`.
pub open spec fn or_spec<T>(over: Option<T>, under: Option<T>) -> Option<T> {
    match over {
        Some(x) => Some(x),
        None => under,
    }
}

fn or_copy<T: Copy>(over: Option<T>, under: Option<T>) -> (r: Option<T>)
    ensures
        r == or_spec(over, under),
{
    match over {
        Some(x) => Some(x),
        None => under,
    }
}

fn or_delimiter(over: &Option<Delimiter>, under: &Option<Delimiter>) -> (r: Option<Delimiter>)
    ensures
        r == or_spec(*over, *under),
{
    match over {
        Some(d) => Some(d.duplicate()),
        None => match under {
            Some(d) => Some(d.duplicate()),
            None => None,
        },
    }
}

fn or_string(over: &Option<String>, under: &Option<String>) -> (r: Option<String>)
    ensures
        r == or_spec(*over, *under),
{
    match over {
        Some(s) => Some(s.clone()),
        None => match under {
            Some(s) => Some(s.clone()),
            None => None,
        },
    }
}

fn copy_name_part(p: &Option<NamePart>) -> (r: Option<NamePart>)
    ensures
        r == *p,
{
    match p {
        Some(p) => Some(p.duplicate()),
        None => None,
    }
}

/// What `Name::merge` gives: each inheritable option from `overrider`
/// where it is set there and from `parent` otherwise; the options that are
/// not inherited (formatting, affixes, name parts) from `overrider` alone.
pub open spec fn merged(parent: Name, overrider: Name) -> Name {
    Name {
        and: or_spec(overrider.and, parent.and),
        delimiter: or_spec(overrider.delimiter, parent.delimiter),
        delimiter_precedes_et_al: or_spec(overrider.delimiter_precedes_et_al, parent.delimiter_precedes_et_al),
        delimiter_precedes_last: or_spec(overrider.delimiter_precedes_last, parent.delimiter_precedes_last),
        et_al_min: or_spec(overrider.et_al_min, parent.et_al_min),
        et_al_use_first: or_spec(overrider.et_al_use_first, parent.et_al_use_first),
        et_al_use_last: or_spec(overrider.et_al_use_last, parent.et_al_use_last),
        et_al_subsequent_min: or_spec(overrider.et_al_subsequent_min, parent.et_al_subsequent_min),
        et_al_subsequent_use_first: or_spec(overrider.et_al_subsequent_use_first, parent.et_al_subsequent_use_first),
        form: or_spec(overrider.form, parent.form),
        initialize: or_spec(overrider.initialize, parent.initialize),
        initialize_with: or_spec(overrider.initialize_with, parent.initialize_with),
        name_as_sort_order: or_spec(overrider.name_as_sort_order, parent.name_as_sort_order),
        sort_separator: or_spec(overrider.sort_separator, parent.sort_separator),
        formatting: overrider.formatting,
        affixes: overrider.affixes,
        name_part_given: overrider.name_part_given,
        name_part_family: overrider.name_part_family,
    }
}

impl Name {
    /// No inheritable option is set, and the options that are not
    /// inherited are empty.
    pub open spec fn is_unset(&self) -> bool {
        &&& self.and is None
        &&& self.delimiter is None
        &&& self.delimiter_precedes_et_al is None
        &&& self.delimiter_precedes_last is None
        &&& self.et_al_min is None
        &&& self.et_al_use_first is None
        &&& self.et_al_use_last is None
        &&& self.et_al_subsequent_min is None
        &&& self.et_al_subsequent_use_first is None
        &&& self.form is None
        &&& self.initialize is None
        &&& self.initialize_with is None
        &&& self.name_as_sort_order is None
        &&& self.sort_separator is None
        &&& self.formatting is None
        &&& self.affixes.prefix@.len() == 0
        &&& self.affixes.suffix@.len() == 0
        &&& self.name_part_given is None
        &&& self.name_part_family is None
    }

    /// The values that the options take at the root, where no parent sets
    /// them.
    pub fn root_default() -> (r: Self)
        ensures
            r.and is None,
            r.delimiter matches Some(d) && d.0@ == seq![','],
            r.delimiter_precedes_et_al == Some(DelimiterPrecedes::Contextual),
            r.delimiter_precedes_last == Some(DelimiterPrecedes::Contextual),
            r.et_al_min == Some(0u32),
            r.et_al_use_first == Some(1u32),
            r.et_al_use_last == Some(false),
            r.et_al_subsequent_min is None,
            r.et_al_subsequent_use_first is None,
            r.form == Some(NameForm::Long),
            r.initialize == Some(true),
            r.initialize_with is None,
            r.name_as_sort_order is None,
            r.sort_separator matches Some(s) && s@ == seq![',', ' '],
            r.formatting is None,
            r.affixes.prefix@.len() == 0,
            r.affixes.suffix@.len() == 0,
            r.name_part_given is None,
            r.name_part_family is None,
    {
        let mut comma = String::new();
        crate::strings::push_char(&mut comma, ',');
        let mut comma_space = String::new();
        crate::strings::push_char(&mut comma_space, ',');
        crate::strings::push_char(&mut comma_space, ' ');
        Name {
            and: None,
            delimiter: Some(Delimiter(comma)),
            delimiter_precedes_et_al: Some(DelimiterPrecedes::Contextual),
            delimiter_precedes_last: Some(DelimiterPrecedes::Contextual),
            et_al_min: Some(0),
            et_al_use_first: Some(1),
            et_al_use_last: Some(false),
            et_al_subsequent_min: None,
            et_al_subsequent_use_first: None,
            form: Some(NameForm::Long),
            initialize: Some(true),
            initialize_with: None,
            name_as_sort_order: None,
            sort_separator: Some(comma_space),
            formatting: None,
            affixes: Affixes::default(),
            name_part_given: None,
            name_part_family: None,
        }
    }

    /// Merges this upstream definition with a more local one, whose set
    /// options override. Once an option is set upstream, no local
    /// definition can unset it.
    pub fn merge(&self, overrider: &Self) -> (r: Self)
        ensures
            r == merged(*self, *overrider),
    {
        Name {
            and: or_copy(overrider.and, self.and),
            delimiter: or_delimiter(&overrider.delimiter, &self.delimiter),
            delimiter_precedes_et_al: or_copy(overrider.delimiter_precedes_et_al, self.delimiter_precedes_et_al),
            delimiter_precedes_last: or_copy(overrider.delimiter_precedes_last, self.delimiter_precedes_last),
            et_al_min: or_copy(overrider.et_al_min, self.et_al_min),
            et_al_use_first: or_copy(overrider.et_al_use_first, self.et_al_use_first),
            et_al_use_last: or_copy(overrider.et_al_use_last, self.et_al_use_last),
            et_al_subsequent_min: or_copy(overrider.et_al_subsequent_min, self.et_al_subsequent_min),
            et_al_subsequent_use_first: or_copy(overrider.et_al_subsequent_use_first, self.et_al_subsequent_use_first),
            form: or_copy(overrider.form, self.form),
            initialize: or_copy(overrider.initialize, self.initialize),
            initialize_with: or_string(&overrider.initialize_with, &self.initialize_with),
            name_as_sort_order: or_copy(overrider.name_as_sort_order, self.name_as_sort_order),
            sort_separator: or_string(&overrider.sort_separator, &self.sort_separator),
            formatting: overrider.formatting,
            affixes: overrider.affixes.duplicate(),
            name_part_given: copy_name_part(&overrider.name_part_given),
            name_part_family: copy_name_part(&overrider.name_part_family),
        }
    }
}

impl Default for Name {
    /// Nothing set.
    fn default() -> (r: Self)
        ensures
            r.is_unset(),
    {
        Name {
            and: None,
            delimiter: None,
            delimiter_precedes_et_al: None,
            delimiter_precedes_last: None,
            et_al_min: None,
            et_al_use_first: None,
            et_al_use_last: None,
            et_al_subsequent_min: None,
            et_al_subsequent_use_first: None,
            form: None,
            initialize: None,
            initialize_with: None,
            name_as_sort_order: None,
            sort_separator: None,
            formatting: None,
            affixes: Affixes::default(),
            name_part_given: None,
            name_part_family: None,
        }
    }
}

/// Inheritance through three levels does not depend on how the levels are
/// grouped: merging a parent with the merge of two children is merging the
/// merge of the parent and the first child with the second.
pub proof fn lemma_merge_associative(a: Name, b: Name, c: Name)
    ensures
        merged(merged(a, b), c) == merged(a, merged(b, c)),
{
}

/// Merging a definition with itself changes nothing.
pub proof fn lemma_merge_idempotent(a: Name)
    ensures
        merged(a, a) == a,
{
}

/// Under a parent that sets nothing, the local definition is the result.
pub proof fn lemma_merge_unset_parent(parent: Name, overrider: Name)
    requires
        parent.is_unset(),
    ensures
        merged(parent, overrider) == overrider,
{
}

/// An inheritable option that the parent sets stays set after any merge
/// (once set upstream, no local definition can unset it), and an option
/// the overrider sets takes the overrider's value.
pub proof fn lemma_merge_set_options(parent: Name, overrider: Name)
    ensures
        parent.and is Some ==> merged(parent, overrider).and is Some,
        parent.delimiter is Some ==> merged(parent, overrider).delimiter is Some,
        parent.delimiter_precedes_et_al is Some ==> merged(parent, overrider).delimiter_precedes_et_al is Some,
        parent.delimiter_precedes_last is Some ==> merged(parent, overrider).delimiter_precedes_last is Some,
        parent.et_al_min is Some ==> merged(parent, overrider).et_al_min is Some,
        parent.et_al_use_first is Some ==> merged(parent, overrider).et_al_use_first is Some,
        parent.et_al_use_last is Some ==> merged(parent, overrider).et_al_use_last is Some,
        parent.et_al_subsequent_min is Some ==> merged(parent, overrider).et_al_subsequent_min is Some,
        parent.et_al_subsequent_use_first is Some ==> merged(parent, overrider).et_al_subsequent_use_first is Some,
        parent.form is Some ==> merged(parent, overrider).form is Some,
        parent.initialize is Some ==> merged(parent, overrider).initialize is Some,
        parent.initialize_with is Some ==> merged(parent, overrider).initialize_with is Some,
        parent.name_as_sort_order is Some ==> merged(parent, overrider).name_as_sort_order is Some,
        parent.sort_separator is Some ==> merged(parent, overrider).sort_separator is Some,
        overrider.and is Some ==> merged(parent, overrider).and == overrider.and,
        overrider.delimiter is Some ==> merged(parent, overrider).delimiter == overrider.delimiter,
        overrider.delimiter_precedes_et_al is Some ==> merged(parent, overrider).delimiter_precedes_et_al
            == overrider.delimiter_precedes_et_al,
        overrider.delimiter_precedes_last is Some ==> merged(parent, overrider).delimiter_precedes_last
            == overrider.delimiter_precedes_last,
        overrider.et_al_min is Some ==> merged(parent, overrider).et_al_min == overrider.et_al_min,
        overrider.et_al_use_first is Some ==> merged(parent, overrider).et_al_use_first == overrider.et_al_use_first,
        overrider.et_al_use_last is Some ==> merged(parent, overrider).et_al_use_last == overrider.et_al_use_last,
        overrider.et_al_subsequent_min is Some ==> merged(parent, overrider).et_al_subsequent_min
            == overrider.et_al_subsequent_min,
        overrider.et_al_subsequent_use_first is Some ==> merged(parent, overrider).et_al_subsequent_use_first
            == overrider.et_al_subsequent_use_first,
        overrider.form is Some ==> merged(parent, overrider).form == overrider.form,
        overrider.initialize is Some ==> merged(parent, overrider).initialize == overrider.initialize,
        overrider.initialize_with is Some ==> merged(parent, overrider).initialize_with == overrider.initialize_with,
        overrider.name_as_sort_order is Some ==> merged(parent, overrider).name_as_sort_order
            == overrider.name_as_sort_order,
        overrider.sort_separator is Some ==> merged(parent, overrider).sort_separator == overrider.sort_separator,
{
}

} // verus!
