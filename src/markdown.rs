use comrak::arena_tree::NodeEdge as E;
use comrak::nodes::NodeValue as N;
use comrak::options::Extension;
use comrak::{parse_document, Arena, Options};
use vstd::prelude::*;

use crate::text::{normalize_spacing, preprocess_text};

verus! {

/// A step of a depth-first walk over a markdown tree: entering a node, given
/// by its kind's name and its literal text (that of text, inline code and code
/// blocks; empty for other nodes), or leaving the node entered last.
pub enum MdEvent {
    Enter(String, String),
    Leave,
}

/// What a node contributes to plain text.
#[derive(Clone, Copy, Debug, PartialEq, Eq)]
pub enum NodeClass {
    /// Literal text.
    Text,
    /// Inline code, taken verbatim.
    Code,
    /// A hard or soft line break.
    Break,
    /// A block (paragraph, heading, list, list item, block quote, table, row,
    /// cell, footnote): its text, then a line break.
    Block,
    /// A fenced or indented code block, taken verbatim, then a line break.
    CodeBlock,
    /// Anything else (emphasis, links, images, the document itself): only its
    /// text; formatting and URLs are dropped.
    Inline,
}

/// Names of the block kinds.
pub open spec fn is_block_name(name: Seq<char>) -> bool {
    name == "paragraph"@ || name == "heading"@ || name == "item"@ || name == "block_quote"@
        || name == "list"@ || name == "table"@ || name == "table_row"@ || name == "table_cell"@
        || name == "footnote_definition"@
}

/// The class of a node kind, by name.
pub open spec fn node_class(name: Seq<char>) -> NodeClass {
    if name == "text"@ {
        NodeClass::Text
    } else if name == "code"@ {
        NodeClass::Code
    } else if name == "linebreak"@ || name == "softbreak"@ {
        NodeClass::Break
    } else if name == "code_block"@ {
        NodeClass::CodeBlock
    } else if is_block_name(name) {
        NodeClass::Block
    } else {
        NodeClass::Inline
    }
}

fn named(name: &String, kind: &str) -> (r: bool)
    ensures
        r == (name@ == kind@),
{
    *name == String::from_str(kind)
}

pub fn classify_node(name: &String) -> (r: NodeClass)
    ensures
        r == node_class(name@),
{
    if named(name, "text") {
        NodeClass::Text
    } else if named(name, "code") {
        NodeClass::Code
    } else if named(name, "linebreak") || named(name, "softbreak") {
        NodeClass::Break
    } else if named(name, "code_block") {
        NodeClass::CodeBlock
    } else if named(name, "paragraph") || named(name, "heading") || named(name, "item") || named(
        name,
        "block_quote",
    ) || named(name, "list") || named(name, "table") || named(name, "table_row") || named(
        name,
        "table_cell",
    ) || named(name, "footnote_definition") {
        NodeClass::Block
    } else {
        NodeClass::Inline
    }
}

/// The markdown extensions that the parser turns on.
#[derive(Clone, Copy, Debug, PartialEq, Eq)]
pub struct MdOptions {
    pub table: bool,
    pub strikethrough: bool,
    pub footnotes: bool,
    pub tasklist: bool,
    pub superscript: bool,
    pub cjk_friendly_emphasis: bool,
}

impl MdOptions {
    /// The extensions the blog's articles are written with, all on. (Underline
    /// only renames strong emphasis, so plain text does not need it.)
    pub fn blog() -> (r: MdOptions)
        ensures
            r.table && r.strikethrough && r.footnotes && r.tasklist && r.superscript
                && r.cjk_friendly_emphasis,
    {
        MdOptions {
            table: true,
            strikethrough: true,
            footnotes: true,
            tasklist: true,
            superscript: true,
            cjk_friendly_emphasis: true,
        }
    }
}

/// The depth-first walk of the tree that parsing `md` with `opts` gives.
pub uninterp spec fn markdown_events(md: Seq<char>, opts: MdOptions) -> Seq<MdEvent>;

/// Relies on comrak::parse_document with these extensions (the rest at their
/// defaults) and on the depth-first traversal of its tree; each node is given
/// by `NodeValue::xml_node_name` and its literal.
#[verifier::external_body]
fn parse_markdown(md: &str, o: &MdOptions) -> (r: Vec<MdEvent>)
    ensures
        r@ == markdown_events(md@, *o),
{
    let ext = Extension { table: o.table, strikethrough: o.strikethrough, footnotes: o.footnotes, tasklist: o.tasklist, superscript: o.superscript, cjk_friendly_emphasis: o.cjk_friendly_emphasis, ..Default::default() };
    parse_document(&Arena::new(), md, &Options { extension: ext, ..Default::default() }).traverse().map(|e| match e {
        E::End(_) => MdEvent::Leave,
        E::Start(n) => MdEvent::Enter(n.data().value.xml_node_name().to_string(), match &n.data().value {
            N::Text(t) => t.to_string(), N::Code(c) => c.literal.clone(), N::CodeBlock(b) => b.literal.clone(), _ => String::new() }),
    }).collect()
}

/// The text so far and, for each node entered and not yet left, whether
/// leaving it ends a line; after one more event.
pub open spec fn step(st: (Seq<char>, Seq<bool>), e: MdEvent) -> (Seq<char>, Seq<bool>) {
    match e {
        MdEvent::Enter(name, lit) => match node_class(name@) {
            NodeClass::Text => (st.0 + lit@, st.1.push(false)),
            NodeClass::Code => (st.0 + lit@, st.1.push(false)),
            NodeClass::Break => (st.0.push('\n'), st.1.push(false)),
            NodeClass::CodeBlock => ((st.0 + lit@).push('\n'), st.1.push(false)),
            NodeClass::Block => (st.0, st.1.push(true)),
            NodeClass::Inline => (st.0, st.1.push(false)),
        },
        MdEvent::Leave => if st.1.len() == 0 {
            st
        } else if st.1.last() {
            (st.0.push('\n'), st.1.drop_last())
        } else {
            (st.0, st.1.drop_last())
        },
    }
}

pub open spec fn run(evs: Seq<MdEvent>) -> (Seq<char>, Seq<bool>)
    decreases evs.len(),
{
    if evs.len() == 0 {
        (seq![], seq![])
    } else {
        step(run(evs.drop_last()), evs.last())
    }
}

/// The plain text of a walk.
pub open spec fn plain_of(evs: Seq<MdEvent>) -> Seq<char> {
    run(evs).0
}

/// The plain text of a markdown walk: literal text and code as they are, a
/// line break for each break and after each block and code block.
pub fn render_plain(events: &Vec<MdEvent>) -> (r: String)
    ensures
        r@ == plain_of(events@),
{
    let mut out = String::new();
    let mut open: Vec<bool> = Vec::new();
    let mut i: usize = 0;
    proof {
        reveal_strlit("\n");
        assert(events@.take(0) =~= Seq::<MdEvent>::empty());
    }
    while i < events.len()
        invariant
            i <= events@.len(),
            (out@, open@) == run(events@.take(i as int)),
            "\n"@ == seq!['\n'],
        decreases events@.len() - i,
    {
        assert(events@.take(i as int + 1).drop_last() =~= events@.take(i as int));
        assert(events@.take(i as int + 1).last() == events@[i as int]);
        match &events[i] {
            MdEvent::Enter(name, lit) => {
                let class = classify_node(name);
                match class {
                    NodeClass::Text => out.append(lit.as_str()),
                    NodeClass::Code => out.append(lit.as_str()),
                    NodeClass::Break => out.append("\n"),
                    NodeClass::CodeBlock => {
                        out.append(lit.as_str());
                        out.append("\n");
                    },
                    NodeClass::Block => {},
                    NodeClass::Inline => {},
                }
                open.push(matches!(class, NodeClass::Block));
            },
            MdEvent::Leave => {
                match open.pop() {
                    Some(true) => out.append("\n"),
                    _ => {},
                }
            },
        }
        i += 1;
    }
    assert(events@.take(events@.len() as int) =~= events@);
    out
}

/// Markdown to normalised plain text, ready for tokenisation.
pub fn md_to_plain(md: &str, opts: &MdOptions) -> (r: String)
    ensures
        r@ == normalize_spacing(plain_of(markdown_events(md@, *opts))),
{
    let events = parse_markdown(md, opts);
    let plain = render_plain(&events);
    preprocess_text(plain.as_str())
}

} // verus!
