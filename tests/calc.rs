use tree_sitter_visitor::{calc_kind, CalcKind, CalcVisitor, TaggedNode, VisitError};

/// A syntax-tree node over a source text: its byte range and its children,
/// each tagged with its kind and with the field name it has, if any.
struct Tree {
    start: usize,
    end: usize,
    children: Vec<(Option<&'static str>, TaggedNode<Tree>)>,
}

type Node = TaggedNode<Tree>;

fn leaf(kind: &str, start: usize, end: usize) -> Node {
    TaggedNode { kind: kind.to_string(), node: Tree { start, end, children: Vec::new() } }
}

fn child(node: &Node, i: usize) -> Option<&Node> {
    node.node.children.get(i).map(|c| &c.1)
}

fn child_by_field_name<'a>(node: &'a Node, name: &str) -> Option<&'a Node> {
    node.node.children.iter().find(|c| c.0 == Some(name)).map(|c| &c.1)
}

/// The tree of `1 + 2`.
fn one_plus_two() -> Node {
    let add = TaggedNode {
        kind: "add_expr".to_string(),
        node: Tree {
            start: 0,
            end: 5,
            children: vec![
                (Some("lhs"), leaf("number", 0, 1)),
                (None, leaf("+", 2, 3)),
                (Some("rhs"), leaf("number", 4, 5)),
            ],
        },
    };
    TaggedNode {
        kind: "root".to_string(),
        node: Tree { start: 0, end: 5, children: vec![(None, add)] },
    }
}

struct Calculator<'t> {
    src: &'t str,
}

impl<'t> CalcVisitor for Calculator<'t> {
    type Node = Tree;
    type ReturnType = f64;

    fn visit_root(&mut self, node: &Node) -> Result<f64, VisitError> {
        self.visit(child(node, 0).unwrap())
    }

    fn visit_number(&mut self, node: &Node) -> Result<f64, VisitError> {
        Ok(self.src[node.node.start..node.node.end].parse().unwrap())
    }

    fn visit_add_expr(&mut self, node: &Node) -> Result<f64, VisitError> {
        let lhs = self.visit(child_by_field_name(node, "lhs").unwrap())?;
        let rhs = self.visit(child_by_field_name(node, "rhs").unwrap())?;
        Ok(lhs + rhs)
    }
}

/// A visitor that overrides nothing.
struct Nothing;

impl CalcVisitor for Nothing {
    type Node = Tree;
    type ReturnType = ();
}

#[test]
fn test_visitor_works() {
    let src = "1 + 2";
    let root_node = one_plus_two();
    let mut visitor = Calculator { src };
    let result = visitor.visit(&root_node);
    assert_eq!(result, Ok(3.0));
}

#[test]
fn unoverridden_kind_fails_through_dispatch() {
    let mut visitor = Calculator { src: "1 + 2" };
    let plus = leaf("+", 2, 3);
    assert_eq!(visitor.visit(&plus), Err(VisitError::NotImplemented("PLUS".to_string())));
}

#[test]
fn unoverridden_method_fails_when_called() {
    let mut visitor = Nothing;
    let n = leaf("number", 0, 1);
    assert_eq!(visitor.visit_number(&n), Err(VisitError::NotImplemented("number".to_string())));
    assert_eq!(visitor.visit(&one_plus_two()), Err(VisitError::NotImplemented("root".to_string())));
}

#[test]
fn unknown_kind_fails() {
    let mut visitor = Calculator { src: "1 + 2" };
    let odd = leaf("mul_expr", 0, 5);
    assert_eq!(visitor.visit(&odd), Err(VisitError::UnknownKind("mul_expr".to_string())));
}

#[test]
fn calc_kinds_by_name() {
    assert_eq!(calc_kind("add_expr"), Some(CalcKind::AddExpr));
    assert_eq!(calc_kind("number"), Some(CalcKind::Number));
    assert_eq!(calc_kind("root"), Some(CalcKind::Root));
    assert_eq!(calc_kind("+"), Some(CalcKind::Plus));
    assert_eq!(calc_kind("Root"), None);
}
