use gdpatch::gdscript::parser::node::{
    Annotatable, ClassNode, ExpressionNode, IdentifierNode, LiteralNode, Node, NodePool, NodeRef,
};
use gdpatch::gdscript::parser::Precedence;
use gdpatch::gdscript::{Position, Span};
use gdpatch::variant::Variant;

fn sp(line: usize) -> Span {
    let p = Position { line, column: 1 };
    Span::new(p, p)
}

#[test]
fn push_get_and_update() {
    let mut pool = NodePool::default();
    let a: NodeRef<IdentifierNode> = pool.push((IdentifierNode { name: "a".to_string() }, sp(1)));
    let b: NodeRef<LiteralNode> = pool.push((LiteralNode { value: Variant::Int(3) }, sp(2)));
    assert_eq!(pool.get(a).0.name, "a");
    assert_eq!(pool.span(b).start.line, 2);
    pool.get_mut(a).0.name = "renamed".to_string();
    assert_eq!(pool.get(a).0.name, "renamed");
    pool.span_mut(a).start.line = 9;
    assert_eq!(pool.span(a).start.line, 9);
    let as_expr: NodeRef<ExpressionNode> = b.upcast();
    assert!(matches!(pool.get(as_expr).0, ExpressionNode::Literal(_)));
    let as_node: NodeRef<Node> = b.downcast();
    assert!(matches!(pool.get(as_node).0, Node::Expr(_)));
    assert!(a.clone() == a);
}

#[test]
fn try_free_only_frees_the_last_node() {
    let mut pool = NodePool::default();
    let a: NodeRef<IdentifierNode> = pool.push((IdentifierNode { name: "a".to_string() }, sp(1)));
    let b: NodeRef<IdentifierNode> = pool.push((IdentifierNode { name: "b".to_string() }, sp(2)));
    pool.try_free(a);
    assert_eq!(pool.get(b).0.name, "b");
    pool.try_free(b);
    let c: NodeRef<IdentifierNode> = pool.push((IdentifierNode { name: "c".to_string() }, sp(3)));
    assert!(c == b);
    assert_eq!(pool.get(c).0.name, "c");
}

#[test]
fn class_annotations() {
    let mut class = ClassNode::default();
    assert!(class.annotations().is_empty());
    let mut pool = NodePool::default();
    let r = pool.push((gdpatch::gdscript::parser::node::AnnotationNode::default(), sp(1)));
    class.annotations_mut().push(r);
    assert_eq!(class.annotations().len(), 1);
}

#[test]
fn precedence_levels_climb() {
    assert_eq!(Precedence::NoPrecedence.next(), Some(Precedence::Assignment));
    assert_eq!(Precedence::Subscript.next(), Some(Precedence::Primary));
    assert_eq!(Precedence::Primary.next(), None);
    let mut p = Precedence::NoPrecedence;
    let mut steps = 0;
    while let Some(q) = p.next() {
        assert!(q > p);
        p = q;
        steps += 1;
    }
    assert_eq!(steps, 23);
}
