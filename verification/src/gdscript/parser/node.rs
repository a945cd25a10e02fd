//! Syntax tree nodes of the GDScript parser, held in an arena.
use vstd::prelude::*;
use std::collections::HashMap;
use std::marker::PhantomData;
use indexmap::IndexMap;
use crate::gdscript::{Span, Spanned};
use crate::private::Sealed;
use crate::variant::Variant;
use vstd::std_specs::cmp::PartialEqSpecImpl;

verus! {

/// Parameters by name, in insertion order: an `IndexMap`. Nothing in this crate reads it.
#[verifier::external_body]
#[derive(Debug)]
pub struct ParameterMap {
    map: IndexMap<String, NodeRef<ParameterNode>>,
}

impl Default for ParameterMap {
    /// An empty map, made by `IndexMap::new`.
    #[verifier::external_body]
    fn default() -> Self {
        ParameterMap { map: IndexMap::new() }
    }
}

impl Clone for ParameterMap {
    /// A copy of the map, made by `IndexMap::clone`.
    #[verifier::external_body]
    fn clone(&self) -> Self {
        ParameterMap { map: self.map.clone() }
    }
}

/// Captured identifiers by name, in insertion order: an `IndexMap`. Nothing in this crate reads it.
#[verifier::external_body]
#[derive(Debug)]
pub struct CaptureMap {
    map: IndexMap<String, NodeRef<IdentifierNode>>,
}

impl Default for CaptureMap {
    /// An empty map, made by `IndexMap::new`.
    #[verifier::external_body]
    fn default() -> Self {
        CaptureMap { map: IndexMap::new() }
    }
}

impl Clone for CaptureMap {
    /// A copy of the map, made by `IndexMap::clone`.
    #[verifier::external_body]
    fn clone(&self) -> Self {
        CaptureMap { map: self.map.clone() }
    }
}

/// Block-local declarations by name, in insertion order: an `IndexMap`. Nothing in this crate reads it.
#[verifier::external_body]
#[derive(Debug)]
pub struct LocalMap {
    map: IndexMap<String, SuiteLocal>,
}

impl Default for LocalMap {
    /// An empty map, made by `IndexMap::new`.
    #[verifier::external_body]
    fn default() -> Self {
        LocalMap { map: IndexMap::new() }
    }
}

impl Clone for LocalMap {
    /// A copy of the map, made by `IndexMap::clone`.
    #[verifier::external_body]
    fn clone(&self) -> Self {
        LocalMap { map: self.map.clone() }
    }
}

/// Nodes that can have annotations applied to them.
pub trait Annotatable {
    /// The annotations of the node.
    spec fn annotation_list(&self) -> Seq<NodeRef<AnnotationNode>>;

    /// The annotations of the node.
    fn annotations(&self) -> (r: &[NodeRef<AnnotationNode>])
        ensures
            r@ == self.annotation_list(),
    ;

    /// The annotations of the node, for changing them.
    fn annotations_mut(&mut self) -> (r: &mut Vec<NodeRef<AnnotationNode>>)
        ensures
            r@ == old(self).annotation_list(),
            final(self).annotation_list() == final(r)@,
    ;
}

/// Node types that can be taken out of the `Node` enum.
pub trait DowncastFromNode: Sealed + Sized {
    /// The `Node` that holds this value.
    spec fn as_node(self) -> Node;

    /// Whether `node` holds a value of this type.
    spec fn holds(node: Node) -> bool;

    /// The `Node` that holds this value holds a value of this type.
    proof fn lemma_holds_as_node(self)
        ensures
            Self::holds(self.as_node()),
    ;

    /// Wraps this value in a `Node`.
    fn into_node(self) -> (r: Node)
        ensures
            r == self.as_node(),
            Self::holds(r),
    ;

    /// The value of this type that `node` holds, if it holds one.
    fn downcast(node: &Node) -> (r: Option<&Self>)
        ensures
            r is Some <==> Self::holds(*node),
            r matches Some(x) ==> x.as_node() == *node,
    ;

    /// The value of this type that `node` holds, if it holds one, for changing it.
    fn downcast_mut(node: &mut Node) -> (r: Option<&mut Self>)
        ensures
            r is Some <==> Self::holds(*old(node)),
            match r {
                Some(x) => (*x).as_node() == *old(node) && *final(node) == (*final(x)).as_node(),
                None => *final(node) == *old(node),
            },
    ;
}

/// Arena that owns the nodes of a syntax tree, each with its source span.
#[derive(Debug)]
pub struct NodePool(Vec<Spanned<Node>>);

impl View for NodePool {
    type V = Seq<(Node, Span)>;

    closed spec fn view(&self) -> Seq<(Node, Span)> {
        self.0@
    }
}

impl Default for NodePool {
    fn default() -> (r: Self)
        ensures
            r@.len() == 0,
    {
        NodePool(Vec::new())
    }
}

impl NodePool {
    /// Stores `t` in the pool and returns a reference to it.
    pub fn push<T: DowncastFromNode>(&mut self, t: Spanned<T>) -> (r: NodeRef<T>)
        requires
            old(self)@.len() < u32::MAX,
        ensures
            final(self)@ == old(self)@.push((t.0.as_node(), t.1)),
            r.index() == old(self)@.len(),
    {
        let upcast = t.0.into_node();
        self.0.push((upcast, t.1));
        let idx = self.0.len();
        NodeRef { idx_plus_one: idx as u32, marker: PhantomData }
    }

    /// The node that `index` refers to, with its span.
    pub fn get<T: DowncastFromNode>(&self, index: NodeRef<T>) -> (r: Spanned<&T>)
        requires
            index.index() < self@.len(),
            T::holds(self@[index.index() as int].0),
        ensures
            r.0.as_node() == self@[index.index() as int].0,
            r.1 == self@[index.index() as int].1,
    {
        let i = index.position();
        let (node, span) = &self.0[i];
        let downcast = T::downcast(node).unwrap();
        (downcast, *span)
    }

    /// The node that `index` refers to, for changing it, with its span.
    pub fn get_mut<T: DowncastFromNode>(&mut self, index: NodeRef<T>) -> (r: Spanned<&mut T>)
        requires
            index.index() < old(self)@.len(),
            T::holds(old(self)@[index.index() as int].0),
        ensures
            (*r.0).as_node() == old(self)@[index.index() as int].0,
            r.1 == old(self)@[index.index() as int].1,
            final(self)@ == old(self)@.update(index.index() as int, ((*final(r.0)).as_node(), r.1)),
    {
        let i = index.position();
        let (node, span) = &mut self.0[i];
        let s = *span;
        let downcast = T::downcast_mut(node).unwrap();
        (downcast, s)
    }

    /// The span of the node that `index` refers to.
    pub fn span<T: DowncastFromNode>(&self, index: NodeRef<T>) -> (r: Span)
        requires
            index.index() < self@.len(),
            T::holds(self@[index.index() as int].0),
        ensures
            r == self@[index.index() as int].1,
    {
        self.get(index).1
    }

    /// The span of the node that `index` refers to, for changing it.
    pub fn span_mut<T: DowncastFromNode>(&mut self, index: NodeRef<T>) -> (r: &mut Span)
        requires
            index.index() < old(self)@.len(),
        ensures
            *r == old(self)@[index.index() as int].1,
            final(self)@ == old(self)@.update(index.index() as int, (old(self)@[index.index() as int].0, *final(r))),
    {
        let i = index.position();
        let (_, span) = &mut self.0[i];
        span
    }

    /// Frees the node that `index` refers to when it is the most recently stored one; otherwise
    /// does nothing.
    pub fn try_free<T: DowncastFromNode>(&mut self, index: NodeRef<T>)
        ensures
            index.index() + 1 == old(self)@.len() ==> final(self)@ == old(self)@.drop_last(),
            index.index() + 1 != old(self)@.len() ==> final(self)@ == old(self)@,
    {
        proof { use_type_invariant(&index); }
        if index.idx_plus_one as usize == self.0.len() {
            self.0.pop();
        }
    }
}

/// A node stored with `push` is what `get` (and `get_mut`) then finds under the returned
/// reference: the pool's entry at that position holds a value of the stored type, namely the
/// stored value, with the stored span.
pub proof fn law_pool_get_after_push<T: DowncastFromNode>(pool: Seq<(Node, Span)>, t: T, span: Span)
    ensures
        ({
            let after = pool.push((t.as_node(), span));
            &&& T::holds(after[pool.len() as int].0)
            &&& after[pool.len() as int] == (t.as_node(), span)
            &&& forall|i: int| 0 <= i < pool.len() ==> after[i] == pool[i]
        }),
{
    t.lemma_holds_as_node();
}

/// Reference to a node of type `T` in a node pool.
#[derive(Debug)]
pub struct NodeRef<T> {
    idx_plus_one: u32,
    marker: PhantomData<T>,
}

impl<T> NodeRef<T> {
    #[verifier::type_invariant]
    spec fn inv(self) -> bool {
        self.idx_plus_one >= 1
    }

    /// Position of the node in its pool.
    pub closed spec fn index(self) -> nat {
        (self.idx_plus_one - 1) as nat
    }

    /// Position of the node in its pool.
    fn position(&self) -> (r: usize)
        ensures
            r == self.index(),
    {
        proof { use_type_invariant(self); }
        (self.idx_plus_one - 1) as usize
    }

    /// The same reference, typed as a reference to a node type that this one converts into.
    pub fn upcast<U: DowncastFromNode>(self) -> (r: NodeRef<U>)
        ensures
            r.index() == self.index(),
    {
        proof { use_type_invariant(&self); }
        NodeRef { idx_plus_one: self.idx_plus_one, marker: PhantomData }
    }

    /// The same reference, typed as a reference to another node type.
    pub fn downcast<U: DowncastFromNode>(self) -> (r: NodeRef<U>)
        ensures
            r.index() == self.index(),
    {
        proof { use_type_invariant(&self); }
        NodeRef { idx_plus_one: self.idx_plus_one, marker: PhantomData }
    }
}

impl<T> Clone for NodeRef<T> {
    fn clone(&self) -> (r: Self)
        ensures
            r == *self,
    {
        *self
    }
}

impl<T> Copy for NodeRef<T> {}

impl<T> PartialEq for NodeRef<T> {
    fn eq(&self, other: &Self) -> (r: bool) {
        proof {
            use_type_invariant(self);
            use_type_invariant(other);
        }
        self.idx_plus_one == other.idx_plus_one
    }
}

impl<T> PartialEqSpecImpl for NodeRef<T> {
    open spec fn obeys_eq_spec() -> bool {
        true
    }

    open spec fn eq_spec(&self, other: &Self) -> bool {
        self.index() == other.index()
    }
}

impl<T> Eq for NodeRef<T> {}

/// Any syntax tree node.
#[derive(Debug, Clone)]
pub enum Node {
    Expr(ExpressionNode),
    Annotation(AnnotationNode),
    Assert(AssertNode),
    Break(BreakNode),
    Breakpoint(BreakpointNode),
    Enum(EnumNode),
    Class(ClassNode),
    Constant(ConstantNode),
    Continue(ContinueNode),
    For(ForNode),
    Function(FunctionNode),
    If(IfNode),
    Match(MatchNode),
    MatchBranch(MatchBranchNode),
    Parameter(ParameterNode),
    Pass(PassNode),
    Pattern(PatternNode),
    Return(ReturnNode),
    Signal(SignalNode),
    Suite(SuiteNode),
    Type(TypeNode),
    Variable(VariableNode),
    While(WhileNode),
}

/// Expression nodes.
#[derive(Debug, Clone)]
pub enum ExpressionNode {
    Array(ArrayNode),
    Assignment(AssignmentNode),
    Await(AwaitNode),
    BinaryOp(BinaryOpNode),
    Call(CallNode),
    Cast(CastNode),
    Dictionary(DictionaryNode),
    GetNode(GetNodeNode),
    Identifier(IdentifierNode),
    Lambda(LambdaNode),
    Literal(LiteralNode),
    Preload(PreloadNode),
    _Self(SelfNode),
    SubScript(SubscriptNode),
    TernaryOp(TernaryOpNode),
    TypeTest(TypeTestNode),
    UnaryOp(UnaryOpNode),
}

impl Sealed for ExpressionNode {}

impl DowncastFromNode for ExpressionNode {
    open spec fn as_node(self) -> Node {
        Node::Expr(self)
    }

    open spec fn holds(node: Node) -> bool {
        node matches Node::Expr(_)
    }

    proof fn lemma_holds_as_node(self) {
    }

    fn into_node(self) -> (r: Node) {
        Node::Expr(self)
    }

    fn downcast(node: &Node) -> (r: Option<&Self>) {
        match node {
            Node::Expr(s) => Some(s),
            _ => None,
        }
    }

    fn downcast_mut(node: &mut Node) -> (r: Option<&mut Self>) {
        match node {
            Node::Expr(s) => Some(s),
            _ => None,
        }
    }
}

impl Sealed for AnnotationNode {}

impl DowncastFromNode for AnnotationNode {
    open spec fn as_node(self) -> Node {
        Node::Annotation(self)
    }

    open spec fn holds(node: Node) -> bool {
        node matches Node::Annotation(_)
    }

    proof fn lemma_holds_as_node(self) {
    }

    fn into_node(self) -> (r: Node) {
        Node::Annotation(self)
    }

    fn downcast(node: &Node) -> (r: Option<&Self>) {
        match node {
            Node::Annotation(s) => Some(s),
            _ => None,
        }
    }

    fn downcast_mut(node: &mut Node) -> (r: Option<&mut Self>) {
        match node {
            Node::Annotation(s) => Some(s),
            _ => None,
        }
    }
}

impl Sealed for AssertNode {}

impl DowncastFromNode for AssertNode {
    open spec fn as_node(self) -> Node {
        Node::Assert(self)
    }

    open spec fn holds(node: Node) -> bool {
        node matches Node::Assert(_)
    }

    proof fn lemma_holds_as_node(self) {
    }

    fn into_node(self) -> (r: Node) {
        Node::Assert(self)
    }

    fn downcast(node: &Node) -> (r: Option<&Self>) {
        match node {
            Node::Assert(s) => Some(s),
            _ => None,
        }
    }

    fn downcast_mut(node: &mut Node) -> (r: Option<&mut Self>) {
        match node {
            Node::Assert(s) => Some(s),
            _ => None,
        }
    }
}

impl Sealed for BreakNode {}

impl DowncastFromNode for BreakNode {
    open spec fn as_node(self) -> Node {
        Node::Break(self)
    }

    open spec fn holds(node: Node) -> bool {
        node matches Node::Break(_)
    }

    proof fn lemma_holds_as_node(self) {
    }

    fn into_node(self) -> (r: Node) {
        Node::Break(self)
    }

    fn downcast(node: &Node) -> (r: Option<&Self>) {
        match node {
            Node::Break(s) => Some(s),
            _ => None,
        }
    }

    fn downcast_mut(node: &mut Node) -> (r: Option<&mut Self>) {
        match node {
            Node::Break(s) => Some(s),
            _ => None,
        }
    }
}

impl Sealed for BreakpointNode {}

impl DowncastFromNode for BreakpointNode {
    open spec fn as_node(self) -> Node {
        Node::Breakpoint(self)
    }

    open spec fn holds(node: Node) -> bool {
        node matches Node::Breakpoint(_)
    }

    proof fn lemma_holds_as_node(self) {
    }

    fn into_node(self) -> (r: Node) {
        Node::Breakpoint(self)
    }

    fn downcast(node: &Node) -> (r: Option<&Self>) {
        match node {
            Node::Breakpoint(s) => Some(s),
            _ => None,
        }
    }

    fn downcast_mut(node: &mut Node) -> (r: Option<&mut Self>) {
        match node {
            Node::Breakpoint(s) => Some(s),
            _ => None,
        }
    }
}

impl Sealed for EnumNode {}

impl DowncastFromNode for EnumNode {
    open spec fn as_node(self) -> Node {
        Node::Enum(self)
    }

    open spec fn holds(node: Node) -> bool {
        node matches Node::Enum(_)
    }

    proof fn lemma_holds_as_node(self) {
    }

    fn into_node(self) -> (r: Node) {
        Node::Enum(self)
    }

    fn downcast(node: &Node) -> (r: Option<&Self>) {
        match node {
            Node::Enum(s) => Some(s),
            _ => None,
        }
    }

    fn downcast_mut(node: &mut Node) -> (r: Option<&mut Self>) {
        match node {
            Node::Enum(s) => Some(s),
            _ => None,
        }
    }
}

impl Sealed for ClassNode {}

impl DowncastFromNode for ClassNode {
    open spec fn as_node(self) -> Node {
        Node::Class(self)
    }

    open spec fn holds(node: Node) -> bool {
        node matches Node::Class(_)
    }

    proof fn lemma_holds_as_node(self) {
    }

    fn into_node(self) -> (r: Node) {
        Node::Class(self)
    }

    fn downcast(node: &Node) -> (r: Option<&Self>) {
        match node {
            Node::Class(s) => Some(s),
            _ => None,
        }
    }

    fn downcast_mut(node: &mut Node) -> (r: Option<&mut Self>) {
        match node {
            Node::Class(s) => Some(s),
            _ => None,
        }
    }
}

impl Sealed for ConstantNode {}

impl DowncastFromNode for ConstantNode {
    open spec fn as_node(self) -> Node {
        Node::Constant(self)
    }

    open spec fn holds(node: Node) -> bool {
        node matches Node::Constant(_)
    }

    proof fn lemma_holds_as_node(self) {
    }

    fn into_node(self) -> (r: Node) {
        Node::Constant(self)
    }

    fn downcast(node: &Node) -> (r: Option<&Self>) {
        match node {
            Node::Constant(s) => Some(s),
            _ => None,
        }
    }

    fn downcast_mut(node: &mut Node) -> (r: Option<&mut Self>) {
        match node {
            Node::Constant(s) => Some(s),
            _ => None,
        }
    }
}

impl Sealed for ContinueNode {}

impl DowncastFromNode for ContinueNode {
    open spec fn as_node(self) -> Node {
        Node::Continue(self)
    }

    open spec fn holds(node: Node) -> bool {
        node matches Node::Continue(_)
    }

    proof fn lemma_holds_as_node(self) {
    }

    fn into_node(self) -> (r: Node) {
        Node::Continue(self)
    }

    fn downcast(node: &Node) -> (r: Option<&Self>) {
        match node {
            Node::Continue(s) => Some(s),
            _ => None,
        }
    }

    fn downcast_mut(node: &mut Node) -> (r: Option<&mut Self>) {
        match node {
            Node::Continue(s) => Some(s),
            _ => None,
        }
    }
}

impl Sealed for ForNode {}

impl DowncastFromNode for ForNode {
    open spec fn as_node(self) -> Node {
        Node::For(self)
    }

    open spec fn holds(node: Node) -> bool {
        node matches Node::For(_)
    }

    proof fn lemma_holds_as_node(self) {
    }

    fn into_node(self) -> (r: Node) {
        Node::For(self)
    }

    fn downcast(node: &Node) -> (r: Option<&Self>) {
        match node {
            Node::For(s) => Some(s),
            _ => None,
        }
    }

    fn downcast_mut(node: &mut Node) -> (r: Option<&mut Self>) {
        match node {
            Node::For(s) => Some(s),
            _ => None,
        }
    }
}

impl Sealed for FunctionNode {}

impl DowncastFromNode for FunctionNode {
    open spec fn as_node(self) -> Node {
        Node::Function(self)
    }

    open spec fn holds(node: Node) -> bool {
        node matches Node::Function(_)
    }

    proof fn lemma_holds_as_node(self) {
    }

    fn into_node(self) -> (r: Node) {
        Node::Function(self)
    }

    fn downcast(node: &Node) -> (r: Option<&Self>) {
        match node {
            Node::Function(s) => Some(s),
            _ => None,
        }
    }

    fn downcast_mut(node: &mut Node) -> (r: Option<&mut Self>) {
        match node {
            Node::Function(s) => Some(s),
            _ => None,
        }
    }
}

impl Sealed for IfNode {}

impl DowncastFromNode for IfNode {
    open spec fn as_node(self) -> Node {
        Node::If(self)
    }

    open spec fn holds(node: Node) -> bool {
        node matches Node::If(_)
    }

    proof fn lemma_holds_as_node(self) {
    }

    fn into_node(self) -> (r: Node) {
        Node::If(self)
    }

    fn downcast(node: &Node) -> (r: Option<&Self>) {
        match node {
            Node::If(s) => Some(s),
            _ => None,
        }
    }

    fn downcast_mut(node: &mut Node) -> (r: Option<&mut Self>) {
        match node {
            Node::If(s) => Some(s),
            _ => None,
        }
    }
}

impl Sealed for MatchNode {}

impl DowncastFromNode for MatchNode {
    open spec fn as_node(self) -> Node {
        Node::Match(self)
    }

    open spec fn holds(node: Node) -> bool {
        node matches Node::Match(_)
    }

    proof fn lemma_holds_as_node(self) {
    }

    fn into_node(self) -> (r: Node) {
        Node::Match(self)
    }

    fn downcast(node: &Node) -> (r: Option<&Self>) {
        match node {
            Node::Match(s) => Some(s),
            _ => None,
        }
    }

    fn downcast_mut(node: &mut Node) -> (r: Option<&mut Self>) {
        match node {
            Node::Match(s) => Some(s),
            _ => None,
        }
    }
}

impl Sealed for MatchBranchNode {}

impl DowncastFromNode for MatchBranchNode {
    open spec fn as_node(self) -> Node {
        Node::MatchBranch(self)
    }

    open spec fn holds(node: Node) -> bool {
        node matches Node::MatchBranch(_)
    }

    proof fn lemma_holds_as_node(self) {
    }

    fn into_node(self) -> (r: Node) {
        Node::MatchBranch(self)
    }

    fn downcast(node: &Node) -> (r: Option<&Self>) {
        match node {
            Node::MatchBranch(s) => Some(s),
            _ => None,
        }
    }

    fn downcast_mut(node: &mut Node) -> (r: Option<&mut Self>) {
        match node {
            Node::MatchBranch(s) => Some(s),
            _ => None,
        }
    }
}

impl Sealed for ParameterNode {}

impl DowncastFromNode for ParameterNode {
    open spec fn as_node(self) -> Node {
        Node::Parameter(self)
    }

    open spec fn holds(node: Node) -> bool {
        node matches Node::Parameter(_)
    }

    proof fn lemma_holds_as_node(self) {
    }

    fn into_node(self) -> (r: Node) {
        Node::Parameter(self)
    }

    fn downcast(node: &Node) -> (r: Option<&Self>) {
        match node {
            Node::Parameter(s) => Some(s),
            _ => None,
        }
    }

    fn downcast_mut(node: &mut Node) -> (r: Option<&mut Self>) {
        match node {
            Node::Parameter(s) => Some(s),
            _ => None,
        }
    }
}

impl Sealed for PassNode {}

impl DowncastFromNode for PassNode {
    open spec fn as_node(self) -> Node {
        Node::Pass(self)
    }

    open spec fn holds(node: Node) -> bool {
        node matches Node::Pass(_)
    }

    proof fn lemma_holds_as_node(self) {
    }

    fn into_node(self) -> (r: Node) {
        Node::Pass(self)
    }

    fn downcast(node: &Node) -> (r: Option<&Self>) {
        match node {
            Node::Pass(s) => Some(s),
            _ => None,
        }
    }

    fn downcast_mut(node: &mut Node) -> (r: Option<&mut Self>) {
        match node {
            Node::Pass(s) => Some(s),
            _ => None,
        }
    }
}

impl Sealed for PatternNode {}

impl DowncastFromNode for PatternNode {
    open spec fn as_node(self) -> Node {
        Node::Pattern(self)
    }

    open spec fn holds(node: Node) -> bool {
        node matches Node::Pattern(_)
    }

    proof fn lemma_holds_as_node(self) {
    }

    fn into_node(self) -> (r: Node) {
        Node::Pattern(self)
    }

    fn downcast(node: &Node) -> (r: Option<&Self>) {
        match node {
            Node::Pattern(s) => Some(s),
            _ => None,
        }
    }

    fn downcast_mut(node: &mut Node) -> (r: Option<&mut Self>) {
        match node {
            Node::Pattern(s) => Some(s),
            _ => None,
        }
    }
}

impl Sealed for ReturnNode {}

impl DowncastFromNode for ReturnNode {
    open spec fn as_node(self) -> Node {
        Node::Return(self)
    }

    open spec fn holds(node: Node) -> bool {
        node matches Node::Return(_)
    }

    proof fn lemma_holds_as_node(self) {
    }

    fn into_node(self) -> (r: Node) {
        Node::Return(self)
    }

    fn downcast(node: &Node) -> (r: Option<&Self>) {
        match node {
            Node::Return(s) => Some(s),
            _ => None,
        }
    }

    fn downcast_mut(node: &mut Node) -> (r: Option<&mut Self>) {
        match node {
            Node::Return(s) => Some(s),
            _ => None,
        }
    }
}

impl Sealed for SignalNode {}

impl DowncastFromNode for SignalNode {
    open spec fn as_node(self) -> Node {
        Node::Signal(self)
    }

    open spec fn holds(node: Node) -> bool {
        node matches Node::Signal(_)
    }

    proof fn lemma_holds_as_node(self) {
    }

    fn into_node(self) -> (r: Node) {
        Node::Signal(self)
    }

    fn downcast(node: &Node) -> (r: Option<&Self>) {
        match node {
            Node::Signal(s) => Some(s),
            _ => None,
        }
    }

    fn downcast_mut(node: &mut Node) -> (r: Option<&mut Self>) {
        match node {
            Node::Signal(s) => Some(s),
            _ => None,
        }
    }
}

impl Sealed for SuiteNode {}

impl DowncastFromNode for SuiteNode {
    open spec fn as_node(self) -> Node {
        Node::Suite(self)
    }

    open spec fn holds(node: Node) -> bool {
        node matches Node::Suite(_)
    }

    proof fn lemma_holds_as_node(self) {
    }

    fn into_node(self) -> (r: Node) {
        Node::Suite(self)
    }

    fn downcast(node: &Node) -> (r: Option<&Self>) {
        match node {
            Node::Suite(s) => Some(s),
            _ => None,
        }
    }

    fn downcast_mut(node: &mut Node) -> (r: Option<&mut Self>) {
        match node {
            Node::Suite(s) => Some(s),
            _ => None,
        }
    }
}

impl Sealed for TypeNode {}

impl DowncastFromNode for TypeNode {
    open spec fn as_node(self) -> Node {
        Node::Type(self)
    }

    open spec fn holds(node: Node) -> bool {
        node matches Node::Type(_)
    }

    proof fn lemma_holds_as_node(self) {
    }

    fn into_node(self) -> (r: Node) {
        Node::Type(self)
    }

    fn downcast(node: &Node) -> (r: Option<&Self>) {
        match node {
            Node::Type(s) => Some(s),
            _ => None,
        }
    }

    fn downcast_mut(node: &mut Node) -> (r: Option<&mut Self>) {
        match node {
            Node::Type(s) => Some(s),
            _ => None,
        }
    }
}

impl Sealed for VariableNode {}

impl DowncastFromNode for VariableNode {
    open spec fn as_node(self) -> Node {
        Node::Variable(self)
    }

    open spec fn holds(node: Node) -> bool {
        node matches Node::Variable(_)
    }

    proof fn lemma_holds_as_node(self) {
    }

    fn into_node(self) -> (r: Node) {
        Node::Variable(self)
    }

    fn downcast(node: &Node) -> (r: Option<&Self>) {
        match node {
            Node::Variable(s) => Some(s),
            _ => None,
        }
    }

    fn downcast_mut(node: &mut Node) -> (r: Option<&mut Self>) {
        match node {
            Node::Variable(s) => Some(s),
            _ => None,
        }
    }
}

impl Sealed for WhileNode {}

impl DowncastFromNode for WhileNode {
    open spec fn as_node(self) -> Node {
        Node::While(self)
    }

    open spec fn holds(node: Node) -> bool {
        node matches Node::While(_)
    }

    proof fn lemma_holds_as_node(self) {
    }

    fn into_node(self) -> (r: Node) {
        Node::While(self)
    }

    fn downcast(node: &Node) -> (r: Option<&Self>) {
        match node {
            Node::While(s) => Some(s),
            _ => None,
        }
    }

    fn downcast_mut(node: &mut Node) -> (r: Option<&mut Self>) {
        match node {
            Node::While(s) => Some(s),
            _ => None,
        }
    }
}

impl Sealed for ArrayNode {}

impl DowncastFromNode for ArrayNode {
    open spec fn as_node(self) -> Node {
        Node::Expr(ExpressionNode::Array(self))
    }

    open spec fn holds(node: Node) -> bool {
        node matches Node::Expr(ExpressionNode::Array(_))
    }

    proof fn lemma_holds_as_node(self) {
    }

    fn into_node(self) -> (r: Node) {
        Node::Expr(ExpressionNode::Array(self))
    }

    fn downcast(node: &Node) -> (r: Option<&Self>) {
        match node {
            Node::Expr(ExpressionNode::Array(s)) => Some(s),
            _ => None,
        }
    }

    fn downcast_mut(node: &mut Node) -> (r: Option<&mut Self>) {
        match node {
            Node::Expr(ExpressionNode::Array(s)) => Some(s),
            _ => None,
        }
    }
}

impl Sealed for AssignmentNode {}

impl DowncastFromNode for AssignmentNode {
    open spec fn as_node(self) -> Node {
        Node::Expr(ExpressionNode::Assignment(self))
    }

    open spec fn holds(node: Node) -> bool {
        node matches Node::Expr(ExpressionNode::Assignment(_))
    }

    proof fn lemma_holds_as_node(self) {
    }

    fn into_node(self) -> (r: Node) {
        Node::Expr(ExpressionNode::Assignment(self))
    }

    fn downcast(node: &Node) -> (r: Option<&Self>) {
        match node {
            Node::Expr(ExpressionNode::Assignment(s)) => Some(s),
            _ => None,
        }
    }

    fn downcast_mut(node: &mut Node) -> (r: Option<&mut Self>) {
        match node {
            Node::Expr(ExpressionNode::Assignment(s)) => Some(s),
            _ => None,
        }
    }
}

impl Sealed for AwaitNode {}

impl DowncastFromNode for AwaitNode {
    open spec fn as_node(self) -> Node {
        Node::Expr(ExpressionNode::Await(self))
    }

    open spec fn holds(node: Node) -> bool {
        node matches Node::Expr(ExpressionNode::Await(_))
    }

    proof fn lemma_holds_as_node(self) {
    }

    fn into_node(self) -> (r: Node) {
        Node::Expr(ExpressionNode::Await(self))
    }

    fn downcast(node: &Node) -> (r: Option<&Self>) {
        match node {
            Node::Expr(ExpressionNode::Await(s)) => Some(s),
            _ => None,
        }
    }

    fn downcast_mut(node: &mut Node) -> (r: Option<&mut Self>) {
        match node {
            Node::Expr(ExpressionNode::Await(s)) => Some(s),
            _ => None,
        }
    }
}

impl Sealed for BinaryOpNode {}

impl DowncastFromNode for BinaryOpNode {
    open spec fn as_node(self) -> Node {
        Node::Expr(ExpressionNode::BinaryOp(self))
    }

    open spec fn holds(node: Node) -> bool {
        node matches Node::Expr(ExpressionNode::BinaryOp(_))
    }

    proof fn lemma_holds_as_node(self) {
    }

    fn into_node(self) -> (r: Node) {
        Node::Expr(ExpressionNode::BinaryOp(self))
    }

    fn downcast(node: &Node) -> (r: Option<&Self>) {
        match node {
            Node::Expr(ExpressionNode::BinaryOp(s)) => Some(s),
            _ => None,
        }
    }

    fn downcast_mut(node: &mut Node) -> (r: Option<&mut Self>) {
        match node {
            Node::Expr(ExpressionNode::BinaryOp(s)) => Some(s),
            _ => None,
        }
    }
}

impl Sealed for CallNode {}

impl DowncastFromNode for CallNode {
    open spec fn as_node(self) -> Node {
        Node::Expr(ExpressionNode::Call(self))
    }

    open spec fn holds(node: Node) -> bool {
        node matches Node::Expr(ExpressionNode::Call(_))
    }

    proof fn lemma_holds_as_node(self) {
    }

    fn into_node(self) -> (r: Node) {
        Node::Expr(ExpressionNode::Call(self))
    }

    fn downcast(node: &Node) -> (r: Option<&Self>) {
        match node {
            Node::Expr(ExpressionNode::Call(s)) => Some(s),
            _ => None,
        }
    }

    fn downcast_mut(node: &mut Node) -> (r: Option<&mut Self>) {
        match node {
            Node::Expr(ExpressionNode::Call(s)) => Some(s),
            _ => None,
        }
    }
}

impl Sealed for CastNode {}

impl DowncastFromNode for CastNode {
    open spec fn as_node(self) -> Node {
        Node::Expr(ExpressionNode::Cast(self))
    }

    open spec fn holds(node: Node) -> bool {
        node matches Node::Expr(ExpressionNode::Cast(_))
    }

    proof fn lemma_holds_as_node(self) {
    }

    fn into_node(self) -> (r: Node) {
        Node::Expr(ExpressionNode::Cast(self))
    }

    fn downcast(node: &Node) -> (r: Option<&Self>) {
        match node {
            Node::Expr(ExpressionNode::Cast(s)) => Some(s),
            _ => None,
        }
    }

    fn downcast_mut(node: &mut Node) -> (r: Option<&mut Self>) {
        match node {
            Node::Expr(ExpressionNode::Cast(s)) => Some(s),
            _ => None,
        }
    }
}

impl Sealed for DictionaryNode {}

impl DowncastFromNode for DictionaryNode {
    open spec fn as_node(self) -> Node {
        Node::Expr(ExpressionNode::Dictionary(self))
    }

    open spec fn holds(node: Node) -> bool {
        node matches Node::Expr(ExpressionNode::Dictionary(_))
    }

    proof fn lemma_holds_as_node(self) {
    }

    fn into_node(self) -> (r: Node) {
        Node::Expr(ExpressionNode::Dictionary(self))
    }

    fn downcast(node: &Node) -> (r: Option<&Self>) {
        match node {
            Node::Expr(ExpressionNode::Dictionary(s)) => Some(s),
            _ => None,
        }
    }

    fn downcast_mut(node: &mut Node) -> (r: Option<&mut Self>) {
        match node {
            Node::Expr(ExpressionNode::Dictionary(s)) => Some(s),
            _ => None,
        }
    }
}

impl Sealed for GetNodeNode {}

impl DowncastFromNode for GetNodeNode {
    open spec fn as_node(self) -> Node {
        Node::Expr(ExpressionNode::GetNode(self))
    }

    open spec fn holds(node: Node) -> bool {
        node matches Node::Expr(ExpressionNode::GetNode(_))
    }

    proof fn lemma_holds_as_node(self) {
    }

    fn into_node(self) -> (r: Node) {
        Node::Expr(ExpressionNode::GetNode(self))
    }

    fn downcast(node: &Node) -> (r: Option<&Self>) {
        match node {
            Node::Expr(ExpressionNode::GetNode(s)) => Some(s),
            _ => None,
        }
    }

    fn downcast_mut(node: &mut Node) -> (r: Option<&mut Self>) {
        match node {
            Node::Expr(ExpressionNode::GetNode(s)) => Some(s),
            _ => None,
        }
    }
}

impl Sealed for IdentifierNode {}

impl DowncastFromNode for IdentifierNode {
    open spec fn as_node(self) -> Node {
        Node::Expr(ExpressionNode::Identifier(self))
    }

    open spec fn holds(node: Node) -> bool {
        node matches Node::Expr(ExpressionNode::Identifier(_))
    }

    proof fn lemma_holds_as_node(self) {
    }

    fn into_node(self) -> (r: Node) {
        Node::Expr(ExpressionNode::Identifier(self))
    }

    fn downcast(node: &Node) -> (r: Option<&Self>) {
        match node {
            Node::Expr(ExpressionNode::Identifier(s)) => Some(s),
            _ => None,
        }
    }

    fn downcast_mut(node: &mut Node) -> (r: Option<&mut Self>) {
        match node {
            Node::Expr(ExpressionNode::Identifier(s)) => Some(s),
            _ => None,
        }
    }
}

impl Sealed for LambdaNode {}

impl DowncastFromNode for LambdaNode {
    open spec fn as_node(self) -> Node {
        Node::Expr(ExpressionNode::Lambda(self))
    }

    open spec fn holds(node: Node) -> bool {
        node matches Node::Expr(ExpressionNode::Lambda(_))
    }

    proof fn lemma_holds_as_node(self) {
    }

    fn into_node(self) -> (r: Node) {
        Node::Expr(ExpressionNode::Lambda(self))
    }

    fn downcast(node: &Node) -> (r: Option<&Self>) {
        match node {
            Node::Expr(ExpressionNode::Lambda(s)) => Some(s),
            _ => None,
        }
    }

    fn downcast_mut(node: &mut Node) -> (r: Option<&mut Self>) {
        match node {
            Node::Expr(ExpressionNode::Lambda(s)) => Some(s),
            _ => None,
        }
    }
}

impl Sealed for LiteralNode {}

impl DowncastFromNode for LiteralNode {
    open spec fn as_node(self) -> Node {
        Node::Expr(ExpressionNode::Literal(self))
    }

    open spec fn holds(node: Node) -> bool {
        node matches Node::Expr(ExpressionNode::Literal(_))
    }

    proof fn lemma_holds_as_node(self) {
    }

    fn into_node(self) -> (r: Node) {
        Node::Expr(ExpressionNode::Literal(self))
    }

    fn downcast(node: &Node) -> (r: Option<&Self>) {
        match node {
            Node::Expr(ExpressionNode::Literal(s)) => Some(s),
            _ => None,
        }
    }

    fn downcast_mut(node: &mut Node) -> (r: Option<&mut Self>) {
        match node {
            Node::Expr(ExpressionNode::Literal(s)) => Some(s),
            _ => None,
        }
    }
}

impl Sealed for PreloadNode {}

impl DowncastFromNode for PreloadNode {
    open spec fn as_node(self) -> Node {
        Node::Expr(ExpressionNode::Preload(self))
    }

    open spec fn holds(node: Node) -> bool {
        node matches Node::Expr(ExpressionNode::Preload(_))
    }

    proof fn lemma_holds_as_node(self) {
    }

    fn into_node(self) -> (r: Node) {
        Node::Expr(ExpressionNode::Preload(self))
    }

    fn downcast(node: &Node) -> (r: Option<&Self>) {
        match node {
            Node::Expr(ExpressionNode::Preload(s)) => Some(s),
            _ => None,
        }
    }

    fn downcast_mut(node: &mut Node) -> (r: Option<&mut Self>) {
        match node {
            Node::Expr(ExpressionNode::Preload(s)) => Some(s),
            _ => None,
        }
    }
}

impl Sealed for SelfNode {}

impl DowncastFromNode for SelfNode {
    open spec fn as_node(self) -> Node {
        Node::Expr(ExpressionNode::_Self(self))
    }

    open spec fn holds(node: Node) -> bool {
        node matches Node::Expr(ExpressionNode::_Self(_))
    }

    proof fn lemma_holds_as_node(self) {
    }

    fn into_node(self) -> (r: Node) {
        Node::Expr(ExpressionNode::_Self(self))
    }

    fn downcast(node: &Node) -> (r: Option<&Self>) {
        match node {
            Node::Expr(ExpressionNode::_Self(s)) => Some(s),
            _ => None,
        }
    }

    fn downcast_mut(node: &mut Node) -> (r: Option<&mut Self>) {
        match node {
            Node::Expr(ExpressionNode::_Self(s)) => Some(s),
            _ => None,
        }
    }
}

impl Sealed for SubscriptNode {}

impl DowncastFromNode for SubscriptNode {
    open spec fn as_node(self) -> Node {
        Node::Expr(ExpressionNode::SubScript(self))
    }

    open spec fn holds(node: Node) -> bool {
        node matches Node::Expr(ExpressionNode::SubScript(_))
    }

    proof fn lemma_holds_as_node(self) {
    }

    fn into_node(self) -> (r: Node) {
        Node::Expr(ExpressionNode::SubScript(self))
    }

    fn downcast(node: &Node) -> (r: Option<&Self>) {
        match node {
            Node::Expr(ExpressionNode::SubScript(s)) => Some(s),
            _ => None,
        }
    }

    fn downcast_mut(node: &mut Node) -> (r: Option<&mut Self>) {
        match node {
            Node::Expr(ExpressionNode::SubScript(s)) => Some(s),
            _ => None,
        }
    }
}

impl Sealed for TernaryOpNode {}

impl DowncastFromNode for TernaryOpNode {
    open spec fn as_node(self) -> Node {
        Node::Expr(ExpressionNode::TernaryOp(self))
    }

    open spec fn holds(node: Node) -> bool {
        node matches Node::Expr(ExpressionNode::TernaryOp(_))
    }

    proof fn lemma_holds_as_node(self) {
    }

    fn into_node(self) -> (r: Node) {
        Node::Expr(ExpressionNode::TernaryOp(self))
    }

    fn downcast(node: &Node) -> (r: Option<&Self>) {
        match node {
            Node::Expr(ExpressionNode::TernaryOp(s)) => Some(s),
            _ => None,
        }
    }

    fn downcast_mut(node: &mut Node) -> (r: Option<&mut Self>) {
        match node {
            Node::Expr(ExpressionNode::TernaryOp(s)) => Some(s),
            _ => None,
        }
    }
}

impl Sealed for TypeTestNode {}

impl DowncastFromNode for TypeTestNode {
    open spec fn as_node(self) -> Node {
        Node::Expr(ExpressionNode::TypeTest(self))
    }

    open spec fn holds(node: Node) -> bool {
        node matches Node::Expr(ExpressionNode::TypeTest(_))
    }

    proof fn lemma_holds_as_node(self) {
    }

    fn into_node(self) -> (r: Node) {
        Node::Expr(ExpressionNode::TypeTest(self))
    }

    fn downcast(node: &Node) -> (r: Option<&Self>) {
        match node {
            Node::Expr(ExpressionNode::TypeTest(s)) => Some(s),
            _ => None,
        }
    }

    fn downcast_mut(node: &mut Node) -> (r: Option<&mut Self>) {
        match node {
            Node::Expr(ExpressionNode::TypeTest(s)) => Some(s),
            _ => None,
        }
    }
}

impl Sealed for UnaryOpNode {}

impl DowncastFromNode for UnaryOpNode {
    open spec fn as_node(self) -> Node {
        Node::Expr(ExpressionNode::UnaryOp(self))
    }

    open spec fn holds(node: Node) -> bool {
        node matches Node::Expr(ExpressionNode::UnaryOp(_))
    }

    proof fn lemma_holds_as_node(self) {
    }

    fn into_node(self) -> (r: Node) {
        Node::Expr(ExpressionNode::UnaryOp(self))
    }

    fn downcast(node: &Node) -> (r: Option<&Self>) {
        match node {
            Node::Expr(ExpressionNode::UnaryOp(s)) => Some(s),
            _ => None,
        }
    }

    fn downcast_mut(node: &mut Node) -> (r: Option<&mut Self>) {
        match node {
            Node::Expr(ExpressionNode::UnaryOp(s)) => Some(s),
            _ => None,
        }
    }
}

impl Sealed for Node {}

impl DowncastFromNode for Node {
    open spec fn as_node(self) -> Node {
        self
    }

    open spec fn holds(node: Node) -> bool {
        true
    }

    proof fn lemma_holds_as_node(self) {
    }

    fn into_node(self) -> (r: Node) {
        self
    }

    fn downcast(node: &Node) -> (r: Option<&Self>) {
        Some(node)
    }

    fn downcast_mut(node: &mut Node) -> (r: Option<&mut Self>) {
        Some(node)
    }
}

/// A declaration that can hold a value: constants, variables and parameters.
#[derive(Debug, Clone, Default)]
pub struct AssignableNode {
    pub identifier: Option<NodeRef<IdentifierNode>>,
    pub initializer: Option<NodeRef<ExpressionNode>>,
    pub expression: Option<NodeRef<ExpressionNode>>,
    pub datatype_specifier: Option<NodeRef<TypeNode>>,
    pub infer_datatype: bool,
    pub use_conversion_assign: bool,
}

/// An annotation such as `@export`.
#[derive(Debug, Clone, Default)]
pub struct AnnotationNode {
    pub name: String,
    pub arguments: Vec<NodeRef<ExpressionNode>>,
}

/// An array literal.
#[derive(Debug, Clone, Default)]
pub struct ArrayNode {
    pub elements: Vec<NodeRef<ExpressionNode>>,
}

/// An `assert` statement.
#[derive(Debug, Clone, Default)]
pub struct AssertNode {
    pub condition: Option<NodeRef<ExpressionNode>>,
    pub message: Option<NodeRef<ExpressionNode>>,
}

/// An assignment, possibly compound.
#[derive(Debug, Clone, Default)]
pub struct AssignmentNode {
    pub operation: AssignmentOperation,
    pub assignee: Option<NodeRef<ExpressionNode>>,
    pub assigned_value: Option<NodeRef<ExpressionNode>>,
}

/// The operator of a compound assignment.
#[derive(Debug, Copy, Clone, Eq, PartialEq, Structural, Default)]
pub enum AssignmentOperation {
    /// Plain `=`.
    #[default]
    Assign,
    Addition,
    Subtraction,
    Multiplication,
    Division,
    Modulo,
    Power,
    BitShiftLeft,
    BitShiftRight,
    BitAnd,
    BitOr,
    BitXor,
}

/// An `await` expression.
#[derive(Debug, Clone, Default)]
pub struct AwaitNode {
    pub to_await: Option<NodeRef<ExpressionNode>>,
}

/// A binary operation.
#[derive(Debug, Clone, Default)]
pub struct BinaryOpNode {
    pub operation: BinaryOperation,
    pub left: Option<NodeRef<ExpressionNode>>,
    pub right: Option<NodeRef<ExpressionNode>>,
}

/// Binary operators.
#[derive(Debug, Copy, Clone, Eq, PartialEq, Structural, Default)]
pub enum BinaryOperation {
    #[default]
    Addition,
    Subtraction,
    Multiplication,
    Division,
    Modulo,
    Power,
    BitLeftShift,
    BitRightShift,
    BitAnd,
    BitOr,
    BitXor,
    LogicAnd,
    LogicOr,
    ContentTest,
    CompEqual,
    CompNotEqual,
    CompLess,
    CompLessEqual,
    CompGreater,
    CompGreaterEqual,
}

/// A `break` statement.
#[derive(Debug, Clone, Default)]
pub struct BreakNode;

/// A `breakpoint` statement.
#[derive(Debug, Clone, Default)]
pub struct BreakpointNode;

/// A call.
#[derive(Debug, Clone, Default)]
pub struct CallNode {
    pub is_super: bool,
    pub function_name: String,
    pub callee: Option<NodeRef<ExpressionNode>>,
    pub arguments: Vec<NodeRef<ExpressionNode>>,
}

/// An `as` cast.
#[derive(Debug, Clone, Default)]
pub struct CastNode {
    pub operand: Option<NodeRef<ExpressionNode>>,
    pub cast_type: Option<NodeRef<TypeNode>>,
}

/// An `enum` declaration.
#[derive(Debug, Clone, Default)]
pub struct EnumNode {
    pub identifier: Option<NodeRef<IdentifierNode>>,
    pub values: Vec<EnumValue>,
}

/// One value of an `enum`.
#[derive(Debug, Clone, Default)]
pub struct EnumValue {
    pub identifier: Option<NodeRef<IdentifierNode>>,
    pub parent_enum: Option<NodeRef<EnumNode>>,
    pub custom_value: Option<NodeRef<ExpressionNode>>,
    pub index: usize,
}

/// A class, or the script itself.
#[derive(Debug, Clone, Default)]
pub struct ClassNode {
    pub annotations: Vec<NodeRef<AnnotationNode>>,
    pub identifier: Option<NodeRef<IdentifierNode>>,
    pub members: Vec<NodeRef<ClassMember>>,
    pub extends: Vec<NodeRef<IdentifierNode>>,
    pub outer: Option<NodeRef<ClassNode>>,
    pub has_static_data: bool,
    pub extends_used: bool,
    pub extends_path: Option<String>,
}

impl Annotatable for ClassNode {
    open spec fn annotation_list(&self) -> Seq<NodeRef<AnnotationNode>> {
        self.annotations@
    }

    fn annotations(&self) -> (r: &[NodeRef<AnnotationNode>]) {
        self.annotations.as_slice()
    }

    fn annotations_mut(&mut self) -> (r: &mut Vec<NodeRef<AnnotationNode>>) {
        &mut self.annotations
    }
}

/// A member of a class.
#[derive(Debug, Clone, Default)]
pub enum ClassMember {
    #[default]
    Undefined,
    Class(Box<ClassNode>),
    Constant(Box<ConstantNode>),
    Function(Box<FunctionNode>),
    Signal(Box<SignalNode>),
    Variable(Box<VariableNode>),
    Enum(Box<EnumNode>),
    EnumValue(EnumValue),
    Group(Box<AnnotationNode>),
}

/// A `const` declaration.
#[derive(Debug, Clone, Default)]
pub struct ConstantNode(pub AssignableNode);

/// A `continue` statement.
#[derive(Debug, Clone, Default)]
pub struct ContinueNode;

/// A dictionary literal.
#[derive(Debug, Clone, Default)]
pub struct DictionaryNode {
    pub style: DictionaryStyle,
    pub elements: Vec<(NodeRef<ExpressionNode>, NodeRef<ExpressionNode>)>,
}

/// How the keys of a dictionary literal are written.
#[derive(Debug, Clone, Copy, Eq, PartialEq, Structural, Default)]
pub enum DictionaryStyle {
    LuaTable,
    #[default]
    PythonDict,
}

/// A `for` loop.
#[derive(Debug, Clone, Default)]
pub struct ForNode {
    pub variable: Option<NodeRef<IdentifierNode>>,
    pub datatype_specifier: Option<NodeRef<TypeNode>>,
    pub use_conversion_assign: bool,
    pub list: Option<NodeRef<ExpressionNode>>,
    pub loop_suite: Option<NodeRef<SuiteNode>>,
}

/// A function declaration.
#[derive(Debug, Clone, Default)]
pub struct FunctionNode {
    pub identifier: Option<NodeRef<IdentifierNode>>,
    pub parameters: ParameterMap,
    pub rest_parameter: Option<NodeRef<ParameterNode>>,
    pub return_type: Option<NodeRef<TypeNode>>,
    pub body_suite: Option<NodeRef<SuiteNode>>,
    pub is_abstract: bool,
    pub is_static: bool,
    pub is_coroutine: bool,
    pub source_lambda: Option<NodeRef<LambdaNode>>,
}

/// A node path (`$Path` or `%Name`).
#[derive(Debug, Clone)]
pub struct GetNodeNode {
    pub full_path: String,
    pub use_dollar: bool,
}

impl Default for GetNodeNode {
    fn default() -> (r: Self)
        ensures
            r.full_path@.len() == 0,
            r.use_dollar,
    {
        GetNodeNode { full_path: String::new(), use_dollar: true }
    }
}

/// An identifier.
#[derive(Debug, Clone, Default)]
pub struct IdentifierNode {
    pub name: String,
}

/// An `if` statement.
#[derive(Debug, Clone, Default)]
pub struct IfNode {
    pub condition: Option<NodeRef<ExpressionNode>>,
    pub true_block: Option<NodeRef<SuiteNode>>,
    pub false_block: Option<NodeRef<SuiteNode>>,
}

/// A lambda.
#[derive(Debug, Clone, Default)]
pub struct LambdaNode {
    pub function: Option<NodeRef<FunctionNode>>,
    pub captures: CaptureMap,
    pub use_self: bool,
    pub parent_function: Option<NodeRef<FunctionNode>>,
    pub parent_lambda: Option<NodeRef<LambdaNode>>,
}

/// A literal value.
#[derive(Debug, Clone, Default)]
pub struct LiteralNode {
    pub value: Variant,
}

/// A `match` statement.
#[derive(Debug, Clone, Default)]
pub struct MatchNode {
    pub test: Option<NodeRef<ExpressionNode>>,
    pub branches: Vec<NodeRef<MatchBranchNode>>,
}

/// One branch of a `match`.
#[derive(Debug, Clone, Default)]
pub struct MatchBranchNode {
    pub patterns: Vec<NodeRef<PatternNode>>,
    pub block: Option<NodeRef<SuiteNode>>,
    pub has_wildcard: bool,
    pub guard_body: Option<NodeRef<SuiteNode>>,
}

/// A function parameter.
#[derive(Debug, Clone, Default)]
pub struct ParameterNode(pub AssignableNode);

/// A `pass` statement.
#[derive(Debug, Clone, Default)]
pub struct PassNode;

/// A `match` pattern.
#[derive(Debug, Clone, Default)]
pub struct PatternNode {
    pub pattern_type: Option<PatternType>,
    pub rest_used: bool,
    pub binds: HashMap<String, NodeRef<IdentifierNode>>,
}

/// Kinds of `match` pattern.
#[derive(Debug, Clone, PartialEq, Eq)]
pub enum PatternType {
    Literal(NodeRef<LiteralNode>),
    Expression(NodeRef<ExpressionNode>),
    Bind(NodeRef<IdentifierNode>),
    Array(ArrayPattern),
    Dictionary(DictionaryPattern),
    Rest,
    Wildcard,
}

/// An array pattern.
#[derive(Debug, Clone, PartialEq, Eq, Default)]
pub struct ArrayPattern {
    pub elements: Vec<NodeRef<PatternNode>>,
    pub rest_used: bool,
}

/// A dictionary pattern.
#[derive(Debug, Clone, PartialEq, Eq, Default)]
pub struct DictionaryPattern {
    pub elements: Vec<DictionaryPatternEntry>,
    pub rest_used: bool,
}

/// One entry of a dictionary pattern.
#[derive(Debug, Clone, PartialEq, Eq, Default)]
pub struct DictionaryPatternEntry {
    pub key: Option<NodeRef<ExpressionNode>>,
    pub value: Option<NodeRef<PatternNode>>,
}

/// A `preload` call.
#[derive(Debug, Clone, Copy, Default)]
pub struct PreloadNode {
    pub path: Option<NodeRef<ExpressionNode>>,
}

/// A `return` statement.
#[derive(Debug, Clone, Copy, Default)]
pub struct ReturnNode {
    pub value: Option<NodeRef<ExpressionNode>>,
    pub void_return: bool,
}

/// The `self` expression.
#[derive(Debug, Clone, Copy, Default)]
pub struct SelfNode;

/// A `signal` declaration.
#[derive(Debug, Clone, Default)]
pub struct SignalNode {
    pub identifier: Option<NodeRef<IdentifierNode>>,
    pub parameters: ParameterMap,
}

/// An index or attribute access.
#[derive(Debug, Clone, Copy, Default)]
pub struct SubscriptNode {
    pub base: Option<NodeRef<ExpressionNode>>,
    pub inner: Option<SubscriptNodeInner>,
}

/// What a subscript accesses.
#[derive(Debug, Copy, Clone)]
pub enum SubscriptNodeInner {
    Index(NodeRef<ExpressionNode>),
    Attribute(NodeRef<IdentifierNode>),
}

/// A block of statements.
#[derive(Debug, Clone, Default)]
pub struct SuiteNode {
    pub parent_block: Option<NodeRef<SuiteNode>>,
    pub statements: Vec<NodeRef<Node>>,
    pub empty: Option<SuiteLocal>,
    pub locals: LocalMap,
    pub parent_function: Option<NodeRef<FunctionNode>>,
    pub parent_if: Option<NodeRef<IfNode>>,
    pub has_return: bool,
    pub has_continue: bool,
    /// Set once, so that the warning is given once per block.
    pub has_unreachable_code: bool,
    /// The block is nested in a loop (directly or indirectly).
    pub is_in_loop: bool,
}

/// A name declared in a block.
#[derive(Debug, Clone, Copy, Default)]
pub struct SuiteLocal {
    pub typ: SuiteLocalType,
    pub source_function: Option<NodeRef<FunctionNode>>,
}

/// What declared a block-local name.
#[derive(Debug, Clone, Copy, Default)]
pub enum SuiteLocalType {
    #[default]
    Undefined,
    Constant(NodeRef<ConstantNode>),
    Variable(NodeRef<VariableNode>),
    Parameter(NodeRef<ParameterNode>),
    ForVariable,
    Bind(NodeRef<IdentifierNode>),
}

/// A ternary `a if c else b` expression.
#[derive(Debug, Clone, Copy, Default)]
pub struct TernaryOpNode {
    pub condition: Option<NodeRef<ExpressionNode>>,
    pub if_true: Option<NodeRef<ExpressionNode>>,
    pub if_false: Option<NodeRef<ExpressionNode>>,
}

/// A type specifier.
#[derive(Debug, Clone, Default)]
pub struct TypeNode {
    pub type_chain: Vec<NodeRef<IdentifierNode>>,
    pub container_types: Vec<NodeRef<TypeNode>>,
}

/// An `is` type test.
#[derive(Debug, Clone, Copy, Default)]
pub struct TypeTestNode {
    pub operand: Option<NodeRef<ExpressionNode>>,
    pub test_type: Option<NodeRef<TypeNode>>,
}

/// A unary operation.
#[derive(Debug, Clone, Copy, Default)]
pub struct UnaryOpNode {
    pub operation: UnaryOperation,
    pub operand: Option<NodeRef<ExpressionNode>>,
}

/// Unary operators.
#[derive(Debug, Clone, Copy, Eq, PartialEq, Structural, Default)]
pub enum UnaryOperation {
    #[default]
    Positive,
    Negate,
    Complement,
    LogicalNot,
}

/// A `var` declaration.
#[derive(Debug, Clone, Default)]
pub struct VariableNode {
    pub base: AssignableNode,
    pub property: Property,
    pub is_static: bool,
}

/// How a variable's accessors are declared.
#[derive(Debug, Clone, Copy, Default)]
pub enum Property {
    /// No accessors.
    #[default]
    NoAccessors,
    Inline(InlineProperty),
    SetGet(SetGetProperty),
}

/// Accessors written inline in the declaration.
#[derive(Debug, Clone, Copy, Default)]
pub struct InlineProperty {
    pub getter: Option<NodeRef<FunctionNode>>,
    pub setter: SetterProperty,
}

/// An inline setter.
#[derive(Debug, Clone, Copy, Default)]
pub struct SetterProperty {
    pub function: Option<NodeRef<FunctionNode>>,
    pub parameter: Option<NodeRef<IdentifierNode>>,
}

/// Accessors named by `setget`.
#[derive(Debug, Clone, Copy, Default)]
pub struct SetGetProperty {
    pub getter: Option<NodeRef<IdentifierNode>>,
    pub setter: Option<NodeRef<IdentifierNode>>,
}

/// A `while` loop.
#[derive(Debug, Clone, Copy, Default)]
pub struct WhileNode {
    pub condition: Option<NodeRef<ExpressionNode>>,
    pub loop_suite: Option<NodeRef<SuiteNode>>,
}

} // verus!
