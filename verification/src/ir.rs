//! The intermediate representation the parser produces: rendered nodes,
//! per-node event handlers and DOM references, component-level window and
//! lifecycle handlers, and the assembled component IR, together with the
//! mathematical view of each type.

use vstd::prelude::*;
use crate::tokens::{LexicalToken, TokenView, token_views};

verus! {

broadcast use vstd::std_specs::vec::group_vec_axioms, vstd::seq::group_seq_axioms;

/// A plain tag attribute: a name and the value's token fragment (empty for a
/// bare, value-less attribute).
#[derive(Debug, PartialEq)]
pub struct Attribute {
    pub name: String,
    pub value: Vec<LexicalToken>,
}

/// The mathematical shape of an attribute.
#[verifier::ext_equal]
pub struct AttributeView {
    pub name: Seq<char>,
    pub value: Seq<TokenView>,
}

impl DeepView for Attribute {
    type V = AttributeView;

    open spec fn deep_view(&self) -> AttributeView {
        AttributeView { name: self.name@, value: token_views(self.value@) }
    }
}

/// One classified entry of an opening tag's attribute list. The category is
/// decided by a fixed reserved-name convention on the attribute name: the name
/// `ref` marks a DOM reference, a name starting with `on_` marks an event
/// handler, and every other name is a plain attribute.
#[derive(Debug, PartialEq)]
pub enum AttributeOrEventHandler {
    Attribute(String, Vec<LexicalToken>),
    EventHandler(String, Vec<LexicalToken>),
    DomRef(String),
}

/// The mathematical shape of one classified attribute-list entry.
#[verifier::ext_equal]
pub enum AttrEntryView {
    Attribute(Seq<char>, Seq<TokenView>),
    EventHandler(Seq<char>, Seq<TokenView>),
    DomRef(Seq<char>),
}

impl DeepView for AttributeOrEventHandler {
    type V = AttrEntryView;

    open spec fn deep_view(&self) -> AttrEntryView {
        match self {
            AttributeOrEventHandler::Attribute(name, value) => AttrEntryView::Attribute(
                name@,
                token_views(value@),
            ),
            AttributeOrEventHandler::EventHandler(name, callback) => AttrEntryView::EventHandler(
                name@,
                token_views(callback@),
            ),
            AttributeOrEventHandler::DomRef(name) => AttrEntryView::DomRef(name@),
        }
    }
}

/// One node of the rendered tree. An expression group carries the embedded
/// expression's tokens; the code-generation backend renders it through the
/// expression's own render capability. `Empty` marks a component with no
/// nodes, and `Fragment` wraps two or more root siblings in source order.
#[derive(Debug, PartialEq)]
pub enum RenderedNode {
    Html { name: String, attributes: Vec<Attribute>, children: Vec<RenderedNode> },
    Text(String),
    ExpressionGroup(Vec<LexicalToken>),
    Empty,
    Fragment(Vec<RenderedNode>),
}

/// The mathematical shape of a rendered node.
#[verifier::ext_equal]
pub enum NodeView {
    Html { name: Seq<char>, attributes: Seq<AttributeView>, children: Seq<NodeView> },
    Text(Seq<char>),
    ExpressionGroup(Seq<TokenView>),
    Empty,
    Fragment(Seq<NodeView>),
}

/// The view of one rendered node.
pub open spec fn node_view(n: RenderedNode) -> NodeView
    decreases n,
{
    match n {
        RenderedNode::Html { name, attributes, children } => NodeView::Html {
            name: name@,
            attributes: attributes.deep_view(),
            children: node_views(children@),
        },
        RenderedNode::Text(text) => NodeView::Text(text@),
        RenderedNode::ExpressionGroup(expr) => NodeView::ExpressionGroup(token_views(expr@)),
        RenderedNode::Empty => NodeView::Empty,
        RenderedNode::Fragment(siblings) => NodeView::Fragment(node_views(siblings@)),
    }
}

/// The views of a sequence of rendered nodes, element by element.
pub open spec fn node_views(s: Seq<RenderedNode>) -> Seq<NodeView>
    decreases s,
{
    if s.len() == 0 {
        Seq::empty()
    } else {
        seq![node_view(s[0])] + node_views(s.subrange(1, s.len() as int))
    }
}

/// A node sequence and its view sequence have the same length, and the view
/// sequence holds the view of each node.
pub broadcast proof fn lemma_node_views_index(s: Seq<RenderedNode>)
    ensures
        (#[trigger] node_views(s)).len() == s.len(),
        forall|i: int| 0 <= i < s.len() ==> node_views(s)[i] == node_view(s[i]),
    decreases s.len(),
{
    if s.len() > 0 {
        lemma_node_views_index(s.subrange(1, s.len() as int));
    }
}

/// The deep view of a node vector is the view sequence of its nodes.
pub broadcast proof fn lemma_vec_deep_view_is_node_views(v: Vec<RenderedNode>)
    ensures
        #[trigger] v.deep_view() == node_views(v@),
{
    lemma_node_views_index(v@);
    assert(v.deep_view() =~= node_views(v@));
}

impl DeepView for RenderedNode {
    type V = NodeView;

    open spec fn deep_view(&self) -> NodeView {
        node_view(*self)
    }
}

/// Where an event handler or DOM reference lives in the rendered tree:
/// sibling indices recorded from the origin node outward to the root, each
/// ancestor appending its own sibling index as the tree folds upward. A
/// root-to-node address is obtained by reversing the recorded path.
///
/// `event` is the full handler attribute name (`on_click`); it is `None`, with
/// `is_group_expression` true, for the single handler an expression-group node
/// registers, whose callback is the raw embedded expression.
#[derive(Debug, PartialEq)]
pub struct UIEventHandlingInfo {
    pub reversed_path: Vec<usize>,
    pub event: Option<String>,
    pub callback: Vec<LexicalToken>,
    pub is_group_expression: bool,
}

/// The mathematical shape of one event-handler record.
#[verifier::ext_equal]
pub struct HandlerView {
    pub reversed_path: Seq<usize>,
    pub event: Option<Seq<char>>,
    pub callback: Seq<TokenView>,
    pub is_group_expression: bool,
}

impl DeepView for UIEventHandlingInfo {
    type V = HandlerView;

    open spec fn deep_view(&self) -> HandlerView {
        HandlerView {
            reversed_path: self.reversed_path@,
            event: self.event.deep_view(),
            callback: token_views(self.callback@),
            is_group_expression: self.is_group_expression,
        }
    }
}

/// A DOM reference record: the reference name and its reversed path, recorded
/// exactly as for event handlers.
#[derive(Debug, PartialEq)]
pub struct DomRefInfo {
    pub reversed_path: Vec<usize>,
    pub ref_name: String,
}

/// The mathematical shape of one DOM-reference record.
#[verifier::ext_equal]
pub struct DomRefView {
    pub reversed_path: Seq<usize>,
    pub ref_name: Seq<char>,
}

impl DeepView for DomRefInfo {
    type V = DomRefView;

    open spec fn deep_view(&self) -> DomRefView {
        DomRefView { reversed_path: self.reversed_path@, ref_name: self.ref_name@ }
    }
}

/// A component-level window event handler: the full declaration name
/// (`on_window_resize`) and the callback's token fragment.
#[derive(Debug, PartialEq)]
pub struct WindowEventHandlingInfo {
    pub event: String,
    pub callback: Vec<LexicalToken>,
}

/// The mathematical shape of one window-handler record.
#[verifier::ext_equal]
pub struct WindowHandlerView {
    pub event: Seq<char>,
    pub callback: Seq<TokenView>,
}

impl DeepView for WindowEventHandlingInfo {
    type V = WindowHandlerView;

    open spec fn deep_view(&self) -> WindowHandlerView {
        WindowHandlerView { event: self.event@, callback: token_views(self.callback@) }
    }
}

/// A component-level lifecycle handler (`on_mount` or `on_unmount`) and the
/// callback's token fragment.
#[derive(Debug, PartialEq)]
pub struct LifecycleEventHandlingInfo {
    pub event: String,
    pub callback: Vec<LexicalToken>,
}

/// The mathematical shape of one lifecycle-handler record.
#[verifier::ext_equal]
pub struct LifecycleHandlerView {
    pub event: Seq<char>,
    pub callback: Seq<TokenView>,
}

impl DeepView for LifecycleEventHandlingInfo {
    type V = LifecycleHandlerView;

    open spec fn deep_view(&self) -> LifecycleHandlerView {
        LifecycleHandlerView { event: self.event@, callback: token_views(self.callback@) }
    }
}

/// A component-scoped handler declaration, classified as a window handler or
/// a lifecycle handler. These precede all nodes and are never path-annotated.
#[derive(Debug, PartialEq)]
pub enum GlobalEventHandlingInfo {
    Window(WindowEventHandlingInfo),
    Lifecycle(LifecycleEventHandlingInfo),
}

/// The mathematical shape of one component-scoped handler declaration.
#[verifier::ext_equal]
pub enum GlobalHandlerView {
    Window(WindowHandlerView),
    Lifecycle(LifecycleHandlerView),
}

impl DeepView for GlobalEventHandlingInfo {
    type V = GlobalHandlerView;

    open spec fn deep_view(&self) -> GlobalHandlerView {
        match self {
            GlobalEventHandlingInfo::Window(w) => GlobalHandlerView::Window(w.deep_view()),
            GlobalEventHandlingInfo::Lifecycle(l) => GlobalHandlerView::Lifecycle(l.deep_view()),
        }
    }
}

/// The result of parsing one markup node: its rendered fragment plus every
/// event handler and DOM reference accumulated in that subtree.
#[derive(Debug, PartialEq)]
pub struct ParsedNode {
    pub rendered: RenderedNode,
    pub handlers: Vec<UIEventHandlingInfo>,
    pub dom_refs: Vec<DomRefInfo>,
}

/// The mathematical shape of one parsed node.
#[verifier::ext_equal]
pub struct ParsedNodeView {
    pub rendered: NodeView,
    pub handlers: Seq<HandlerView>,
    pub dom_refs: Seq<DomRefView>,
}

impl DeepView for ParsedNode {
    type V = ParsedNodeView;

    open spec fn deep_view(&self) -> ParsedNodeView {
        ParsedNodeView {
            rendered: self.rendered.deep_view(),
            handlers: self.handlers.deep_view(),
            dom_refs: self.dom_refs.deep_view(),
        }
    }
}

/// The sole output of a successful parse: the reduced rendered tree and all
/// handler and reference metadata, handed unchanged to the code-generation
/// backend. `owns_captures` records the ownership mode the entry point chose;
/// it does not affect parsing, only how the backend later generates captures.
#[derive(Debug, PartialEq)]
pub struct ComponentIR {
    pub rendered_tree: RenderedNode,
    pub event_handlers: Vec<UIEventHandlingInfo>,
    pub window_handlers: Vec<WindowEventHandlingInfo>,
    pub lifecycle_handlers: Vec<LifecycleEventHandlingInfo>,
    pub dom_refs: Vec<DomRefInfo>,
    pub owns_captures: bool,
}

/// The mathematical shape of the component IR.
#[verifier::ext_equal]
pub struct ComponentIRView {
    pub rendered_tree: NodeView,
    pub event_handlers: Seq<HandlerView>,
    pub window_handlers: Seq<WindowHandlerView>,
    pub lifecycle_handlers: Seq<LifecycleHandlerView>,
    pub dom_refs: Seq<DomRefView>,
    pub owns_captures: bool,
}

impl DeepView for ComponentIR {
    type V = ComponentIRView;

    open spec fn deep_view(&self) -> ComponentIRView {
        ComponentIRView {
            rendered_tree: self.rendered_tree.deep_view(),
            event_handlers: self.event_handlers.deep_view(),
            window_handlers: self.window_handlers.deep_view(),
            lifecycle_handlers: self.lifecycle_handlers.deep_view(),
            dom_refs: self.dom_refs.deep_view(),
            owns_captures: self.owns_captures,
        }
    }
}

} // verus!
