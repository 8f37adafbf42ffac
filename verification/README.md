# citeproc

Citation processing for the Citation Style Language, verified with Verus.

`src/` is the library. Verus proves every function in it against its
contract, except four small trusted functions marked `external_body`, whose
contracts are believed: they call `String::push`, `char::is_alphabetic`,
`char::is_alphanumeric`, and the debug formatting of an interned string.
The modules:

- `style`, `name`, `variables`, `terms`: the style tree, its defaults, name
  option inheritance and the position tests of `<cs:choose>`.
- `lang`, `lang_parse`: `xml:lang` tags, their text, the grammar that reads
  them, and the order in which inline and file locales are consulted.
- `locale`, `date`: the locale data that dates use, and the rendering of
  date parts and date elements.
- `output`: output formats, affixes, and a plain-text format.
- `helpers`: joining runs of rendered content, and numeric content.
- `ir`, `disamb`: the intermediate representation, disambiguation tokens,
  year suffixes, whether a cite is ambiguous, and which disambiguation pass
  runs next.

Maps keyed by strings or tokens (the macros, the locale overrides, the
inverted index, the year suffixes, the tokens of a cite) are held as
vectors with the invariants the code relies on: the verifier's model of
hash maps covers only key types with a proved hashing model, which strings
and tokens do not have.

`tests/` runs the library; `app/` holds a serde-enabled copy of the output
type.
