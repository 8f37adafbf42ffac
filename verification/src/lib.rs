//! Citation processing for the Citation Style Language: the style model,
//! locale identifiers, date rendering and the disambiguation bookkeeping.

pub mod strings;
pub mod style;
pub mod output;
pub mod variables;
pub mod terms;
pub mod name;
pub mod lang;
pub mod lang_parse;
pub mod ir;
pub mod locale;
pub mod date;
pub mod helpers;
pub mod disamb;
