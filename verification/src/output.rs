//! Output formats: what a rendered node is built from.
use vstd::prelude::*;
use crate::style::{default_formatting, Affixes, Formatting};

verus! {

/// The rendered citations and bibliography of a document.
pub struct Output<T> {
    pub citations: Vec<T>,
    pub bibliography: Vec<T>,
    pub citation_ids: Vec<String>,
}

/// A format that builds nodes of type `T` and final output of type `O`.
///
/// Affixes are not part of the formatting of a text node: they become text
/// nodes of their own, with the default formatting.
pub trait OutputFormat<T: View, O: View>: Sized {
    /// The node that `text_node` builds, by its view.
    spec fn text_node_spec(&self, s: Seq<char>, formatting: Formatting) -> T::V;

    /// The node that `group` builds from the views of its nodes.
    spec fn group_spec(&self, nodes: Seq<T::V>, delimiter: Seq<char>, formatting: Formatting) -> T::V;

    /// The output that `output` builds from the view of a node.
    spec fn output_spec(&self, intermediate: T::V) -> O::V;

    /// A node holding text with the given formatting.
    fn text_node(&self, s: &str, formatting: &Formatting) -> (r: T)
        ensures
            r@ == self.text_node_spec(s@, *formatting),
    ;

    /// A node holding the given nodes, in order, separated by the
    /// delimiter.
    fn group(&self, nodes: &[T], delimiter: &str, formatting: &Formatting) -> (r: T)
        ensures
            r@ == self.group_spec(nodes@.map_values(|n: T| n@), delimiter@, *formatting),
    ;

    /// The final output of a node.
    fn output(&self, intermediate: T) -> (r: O)
        ensures
            r@ == self.output_spec(intermediate@),
    ;

    /// A text node with the default formatting.
    fn plain(&self, s: &str) -> (r: T)
        ensures
            r@ == self.text_node_spec(s@, default_formatting()),
    {
        self.text_node(s, &Formatting::default())
    }
}

/// The node `affixed` builds: the node itself where both affixes are
/// empty, else a group, with no delimiter and the default formatting, of
/// the non-empty prefix, the node and the non-empty suffix.
pub open spec fn affixed_spec<T: View, O: View, F: OutputFormat<T, O>>(
    fmt: &F,
    node: T::V,
    affixes: Affixes,
) -> T::V {
    let pre = affixes.prefix@;
    let suf = affixes.suffix@;
    if pre.len() == 0 && suf.len() == 0 {
        node
    } else {
        let pre_nodes = if pre.len() == 0 {
            Seq::<T::V>::empty()
        } else {
            seq![fmt.text_node_spec(pre, default_formatting())]
        };
        let suf_nodes = if suf.len() == 0 {
            Seq::<T::V>::empty()
        } else {
            seq![fmt.text_node_spec(suf, default_formatting())]
        };
        fmt.group_spec(pre_nodes + seq![node] + suf_nodes, Seq::empty(), default_formatting())
    }
}

/// The formatting given, or the default where none is.
pub open spec fn formatting_or_default(f: Option<Formatting>) -> Formatting {
    match f {
        Some(f) => f,
        None => default_formatting(),
    }
}

/// The formatting given, or the default where none is.
pub fn or_default_formatting(f: Option<Formatting>) -> (r: Formatting)
    ensures
        r == formatting_or_default(f),
{
    match f {
        Some(f) => f,
        None => Formatting::default(),
    }
}

/// Surrounds a node with affixes.
pub fn affixed<T: View, O: View, F: OutputFormat<T, O>>(fmt: &F, node: T, affixes: &Affixes) -> (r: T)
    ensures
        r@ == affixed_spec(fmt, node@, *affixes),
{
    let pre = affixes.prefix.as_str();
    let suf = affixes.suffix.as_str();
    if pre.is_empty() && suf.is_empty() {
        return node;
    }
    let ghost node_view = node@;
    let mut nodes: Vec<T> = Vec::new();
    if !pre.is_empty() {
        nodes.push(fmt.plain(pre));
    }
    let ghost before = nodes@.map_values(|n: T| n@);
    nodes.push(node);
    if !suf.is_empty() {
        nodes.push(fmt.plain(suf));
    }
    let empty = "";
    proof {
        reveal_strlit("");
    }
    let r = fmt.group(nodes.as_slice(), empty, &Formatting::default());
    proof {
        let pre_nodes = if pre@.len() == 0 {
            Seq::<T::V>::empty()
        } else {
            seq![fmt.text_node_spec(pre@, default_formatting())]
        };
        let suf_nodes = if suf@.len() == 0 {
            Seq::<T::V>::empty()
        } else {
            seq![fmt.text_node_spec(suf@, default_formatting())]
        };
        assert(before == pre_nodes);
        assert(nodes@.map_values(|n: T| n@) == pre_nodes + seq![node_view] + suf_nodes);
        assert(empty@ == Seq::<char>::empty());
        assert(r@ == fmt.group_spec(pre_nodes + seq![node_view] + suf_nodes, Seq::empty(), default_formatting()));
    }
    r
}

/// A text node with the given formatting, surrounded by affixes.
pub fn affixed_text<T: View, O: View, F: OutputFormat<T, O>>(
    fmt: &F,
    s: &str,
    formatting: Option<Formatting>,
    affixes: &Affixes,
) -> (r: T)
    ensures
        r@ == affixed_spec(fmt, fmt.text_node_spec(s@, formatting_or_default(formatting)), *affixes),
{
    let f = or_default_formatting(formatting);
    let node = fmt.text_node(s, &f);
    affixed(fmt, node, affixes)
}

/// Plain text: formatting is dropped and a group is its nodes joined by
/// the delimiter.
pub struct PlainText;

/// The nodes joined, with the delimiter between each two.
pub open spec fn join(nodes: Seq<Seq<char>>, delimiter: Seq<char>) -> Seq<char>
    decreases nodes.len(),
{
    if nodes.len() == 0 {
        Seq::empty()
    } else if nodes.len() == 1 {
        nodes[0]
    } else {
        join(nodes.drop_last(), delimiter) + delimiter + nodes.last()
    }
}

impl PlainText {
    pub fn new() -> (r: PlainText) {
        PlainText
    }
}

impl OutputFormat<String, String> for PlainText {
    open spec fn text_node_spec(&self, s: Seq<char>, formatting: Formatting) -> Seq<char> {
        s
    }

    open spec fn group_spec(&self, nodes: Seq<Seq<char>>, delimiter: Seq<char>, formatting: Formatting) -> Seq<char> {
        join(nodes, delimiter)
    }

    open spec fn output_spec(&self, intermediate: Seq<char>) -> Seq<char> {
        intermediate
    }

    fn text_node(&self, s: &str, formatting: &Formatting) -> (r: String) {
        String::from_str(s)
    }

    fn group(&self, nodes: &[String], delimiter: &str, formatting: &Formatting) -> (r: String) {
        let ghost views = nodes@.map_values(|n: String| n@);
        let mut r = String::new();
        let mut i: usize = 0;
        while i < nodes.len()
            invariant
                i <= nodes@.len(),
                views == nodes@.map_values(|n: String| n@),
                r@ == join(views.subrange(0, i as int), delimiter@),
            decreases nodes.len() - i,
        {
            assert(views.subrange(0, i + 1).drop_last() == views.subrange(0, i as int));
            if i > 0 {
                r.append(delimiter);
            }
            r.append(nodes[i].as_str());
            i = i + 1;
        }
        assert(views.subrange(0, nodes@.len() as int) == views);
        r
    }

    fn output(&self, intermediate: String) -> (r: String) {
        intermediate
    }
}

} // verus!
