//! A plain-value model of a parsed KDL document, and its construction from the `kdl`
//! crate's document tree. The recipe logic reads only this model.

use kdl::{KdlDiagnostic, KdlDocument, KdlEntry, KdlError, KdlNode, KdlValue};
use vstd::prelude::*;

verus! {

#[verifier::external_type_specification]
#[verifier::external_body]
pub struct ExKdlNode(KdlNode);

#[verifier::external_type_specification]
#[verifier::external_body]
pub struct ExKdlEntry(KdlEntry);

#[verifier::external_type_specification]
#[verifier::external_body]
pub struct ExKdlError(KdlError);

#[verifier::external_type_specification]
#[verifier::external_body]
pub struct ExKdlDiagnostic(KdlDiagnostic);

/// The value of an entry, as far as recipes distinguish values.
#[derive(Debug)]
pub enum Scalar {
    /// A string value.
    Str(String),
    /// An integer value.
    Int(i128),
    /// Any other value (float, boolean, null).
    Other,
}

/// An argument or property of a node, with the byte span it covers in the source.
#[derive(Debug)]
pub struct EntryData {
    /// The property name; `None` for a positional argument.
    pub name: Option<String>,
    /// The entry's value.
    pub value: Scalar,
    /// Byte offset of the entry in the source.
    pub offset: usize,
    /// Byte length of the entry in the source.
    pub len: usize,
}

/// A node: its name, entries, optional child block and byte span.
#[derive(Debug)]
pub struct NodeData {
    /// The node name.
    pub name: String,
    /// Arguments and properties in source order.
    pub entries: Vec<EntryData>,
    /// The child block, when the node has one.
    pub children: Option<Vec<NodeData>>,
    /// Byte offset of the node in the source.
    pub offset: usize,
    /// Byte length of the node in the source.
    pub len: usize,
}

/// A whole document: its top-level nodes and byte span.
#[derive(Debug)]
pub struct DocumentData {
    /// Top-level nodes in source order.
    pub nodes: Vec<NodeData>,
    /// Byte offset of the document in the source.
    pub offset: usize,
    /// Byte length of the document in the source.
    pub len: usize,
}

/// Abstract entry value.
pub enum ScalarView {
    Str(Seq<char>),
    Int(int),
    Other,
}

/// Abstract entry.
pub struct EntryView {
    pub name: Option<Seq<char>>,
    pub value: ScalarView,
    pub offset: nat,
    pub len: nat,
}

/// Abstract node.
pub struct NodeView {
    pub name: Seq<char>,
    pub entries: Seq<EntryView>,
    pub children: Option<Seq<NodeView>>,
    pub offset: nat,
    pub len: nat,
}

/// Abstract document.
pub struct DocumentView {
    pub nodes: Seq<NodeView>,
    pub offset: nat,
    pub len: nat,
}

impl View for Scalar {
    type V = ScalarView;

    open spec fn view(&self) -> ScalarView {
        match self {
            Scalar::Str(s) => ScalarView::Str(s@),
            Scalar::Int(i) => ScalarView::Int(*i as int),
            Scalar::Other => ScalarView::Other,
        }
    }
}

impl View for EntryData {
    type V = EntryView;

    open spec fn view(&self) -> EntryView {
        EntryView {
            name: match self.name {
                Some(n) => Some(n@),
                None => None,
            },
            value: self.value@,
            offset: self.offset as nat,
            len: self.len as nat,
        }
    }
}

/// View of a list of entries.
pub open spec fn entries_view(entries: Seq<EntryData>) -> Seq<EntryView> {
    entries.map_values(|e: EntryData| e@)
}

/// View of a list of nodes.
pub open spec fn nodes_view(nodes: Seq<NodeData>) -> Seq<NodeView>
    decreases nodes,
{
    Seq::new(
        nodes.len(),
        |i: int|
            {
                if 0 <= i < nodes.len() {
                    node_view(nodes[i])
                } else {
                    arbitrary()
                }
            },
    )
}

/// View of one node.
pub open spec fn node_view(node: NodeData) -> NodeView
    decreases node,
{
    NodeView {
        name: node.name@,
        entries: entries_view(node.entries@),
        children: match node.children {
            Some(c) => Some(nodes_view(c@)),
            None => None,
        },
        offset: node.offset as nat,
        len: node.len as nat,
    }
}

impl View for NodeData {
    type V = NodeView;

    open spec fn view(&self) -> NodeView {
        node_view(*self)
    }
}

impl View for DocumentData {
    type V = DocumentView;

    open spec fn view(&self) -> DocumentView {
        DocumentView { nodes: nodes_view(self.nodes@), offset: self.offset as nat, len: self.len as nat }
    }
}

/// Whether the `kdl` crate reads `source` as a KDL document.
pub uninterp spec fn kdl_accepts(source: Seq<char>) -> bool;

/// The plain model of the document that the `kdl` crate reads from `source`.
pub uninterp spec fn kdl_document(source: Seq<char>) -> DocumentView;

/// Converts entries of the `kdl` crate one for one into the plain model: each entry's name
/// (`KdlEntry::name`), its value (`KdlEntry::value`: strings and integers kept, any other
/// value marked) and its span (`KdlEntry::span`).
#[verifier::external_body]
fn kdl_entries_data(entries: &[KdlEntry]) -> (data: Vec<EntryData>) {
    entries.iter().map(|entry| EntryData {
        name: entry.name().map(|name| name.value().to_string()),
        value: match entry.value() {
            KdlValue::String(text) => Scalar::Str(text.clone()),
            KdlValue::Integer(number) => Scalar::Int(*number),
            KdlValue::Float(_) | KdlValue::Bool(_) | KdlValue::Null => Scalar::Other,
        },
        offset: entry.span().offset(),
        len: entry.span().len(),
    }).collect()
}

/// Converts nodes of the `kdl` crate one for one into the plain model: each node's name
/// (`KdlNode::name`), its entries (`KdlNode::entries`, as `kdl_entries_data` converts
/// them), its child block (`KdlNode::children`, converted the same way) and its span
/// (`KdlNode::span`).
#[verifier::external_body]
fn kdl_nodes_data(nodes: &[KdlNode]) -> (data: Vec<NodeData>) {
    nodes.iter().map(|node| NodeData {
        name: node.name().value().to_string(),
        entries: kdl_entries_data(node.entries()),
        children: node.children().map(|block| kdl_nodes_data(block.nodes())),
        offset: node.span().offset(),
        len: node.span().len(),
    }).collect()
}

/// Calls `KdlDocument::parse` (through `str::parse`) on the recipe source and converts
/// the document read one for one into the plain model (its nodes, as `kdl_nodes_data`
/// converts them, and its span). Whether parsing succeeds, and the document read, depend
/// on the source alone.
#[verifier::external_body]
pub(crate) fn kdl_parse(source: &str) -> (r: Result<DocumentData, KdlError>)
    ensures
        r.is_ok() == kdl_accepts(source@),
        r matches Ok(data) ==> data@ == kdl_document(source@),
{
    let document = source.parse::<KdlDocument>()?;
    let span = document.span();
    Ok(DocumentData { nodes: kdl_nodes_data(document.nodes()), offset: span.offset(), len: span.len() })
}

/// The first diagnostic of a KDL syntax error, if it has one (`KdlError::diagnostics`).
#[verifier::external_body]
pub(crate) fn kdl_first_diagnostic(error: &KdlError) -> (first: Option<&KdlDiagnostic>) {
    error.diagnostics.first()
}

/// Renders one KDL diagnostic with `miette::GraphicalReportHandler::render_report`
/// (unicode, no colour, no links, no cause chain): the text written, and whether the
/// handler finished without a formatting failure. Nothing is stated of the text.
#[verifier::external_body]
pub(crate) fn render_diagnostic_report(diagnostic: &KdlDiagnostic) -> (rendered: (String, bool)) {
    let handler = miette::GraphicalReportHandler::new_themed(miette::GraphicalTheme::unicode_nocolor())
        .with_links(false)
        .without_cause_chain();
    let mut text = String::new();
    let finished = handler.render_report(&mut text, diagnostic).is_ok();
    (text, finished)
}

/// Renders a whole KDL error with `miette::GraphicalReportHandler::render_report`, set up
/// as for a diagnostic: the text written, and whether the handler finished without a
/// formatting failure. Nothing is stated of the text.
#[verifier::external_body]
pub(crate) fn render_error_report(error: &KdlError) -> (rendered: (String, bool)) {
    let handler = miette::GraphicalReportHandler::new_themed(miette::GraphicalTheme::unicode_nocolor())
        .with_links(false)
        .without_cause_chain();
    let mut text = String::new();
    let finished = handler.render_report(&mut text, error).is_ok();
    (text, finished)
}

/// A KDL diagnostic's `Display` text and its help text (`KdlDiagnostic::help`).
#[verifier::external_body]
pub(crate) fn kdl_diagnostic_text(diagnostic: &KdlDiagnostic) -> (text: (String, Option<String>)) {
    (diagnostic.to_string(), diagnostic.help.clone())
}

} // verus!
