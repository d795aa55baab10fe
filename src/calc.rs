use vstd::prelude::*;

use crate::interface::VisitError;
use crate::text::same_text;

verus! {

/// The node kinds of the calculator grammar.
#[derive(Debug, Clone, Copy, PartialEq, Eq, Structural)]
pub enum CalcKind {
    AddExpr,
    Number,
    Root,
    Plus,
}

/// The raw name of each calculator node kind.
pub open spec fn calc_kind_name(k: CalcKind) -> Seq<char> {
    match k {
        CalcKind::AddExpr => "add_expr"@,
        CalcKind::Number => "number"@,
        CalcKind::Root => "root"@,
        CalcKind::Plus => "+"@,
    }
}

/// Different calculator node kinds have different raw names.
pub proof fn lemma_calc_kind_names_distinct()
    ensures
        forall|a: CalcKind, b: CalcKind| #[trigger] calc_kind_name(a) == #[trigger] calc_kind_name(b) ==> a == b,
{
    reveal_strlit("add_expr");
    reveal_strlit("number");
    reveal_strlit("root");
    reveal_strlit("+");
    assert(calc_kind_name(CalcKind::AddExpr).len() == 8);
    assert(calc_kind_name(CalcKind::Number).len() == 6);
    assert(calc_kind_name(CalcKind::Root).len() == 4);
    assert(calc_kind_name(CalcKind::Plus).len() == 1);
    assert forall|a: CalcKind, b: CalcKind| #[trigger] calc_kind_name(a) == #[trigger] calc_kind_name(
        b,
    ) implies a == b by {
        assert(calc_kind_name(a).len() == calc_kind_name(b).len());
    }
}

/// The calculator node kind whose raw name is `kind`, if any.
pub fn calc_kind(kind: &str) -> (r: Option<CalcKind>)
    ensures
        match r {
            Some(k) => calc_kind_name(k) == kind@,
            None => forall|k: CalcKind| calc_kind_name(k) != kind@,
        },
{
    if same_text(kind, "add_expr") {
        Some(CalcKind::AddExpr)
    } else if same_text(kind, "number") {
        Some(CalcKind::Number)
    } else if same_text(kind, "root") {
        Some(CalcKind::Root)
    } else if same_text(kind, "+") {
        Some(CalcKind::Plus)
    } else {
        None
    }
}

/// A syntax-tree node of the tree representation `N`, with the kind tag
/// that the representation gives it.
pub struct TaggedNode<N> {
    pub kind: String,
    pub node: N,
}

/// A visitor over the calculator grammar (`root`, `number`, `add_expr` and
/// the `+` token).
///
/// Every `visit_*` method fails with `VisitError::NotImplemented` unless the
/// implementor overrides it, so a visitor can handle a grammar kind by kind;
/// `visit` routes a node to the method of its kind.
pub trait CalcVisitor: Sized {
    type Node;

    type ReturnType;

    /// Visits a node of any type: the method of the node's kind handles it,
    /// from the visitor as it was, leaving the visitor as that method leaves
    /// it and returning what that method returns; a kind outside the grammar
    /// fails with `VisitError::UnknownKind`.
    fn visit(&mut self, node: &TaggedNode<Self::Node>) -> (r: Result<Self::ReturnType, VisitError>)
        ensures
            (forall|k: CalcKind| calc_kind_name(k) != node.kind@) ==> (r is Err
                && r->Err_0 is UnknownKind && r->Err_0->UnknownKind_0@ == node.kind@),
            calc_kind_name(CalcKind::AddExpr) == node.kind@ ==> exists|s: &mut Self|
                *s == *old(self) && *final(s) == *final(self) && call_ensures(
                    Self::visit_add_expr,
                    (s, node),
                    r,
                ),
            calc_kind_name(CalcKind::Number) == node.kind@ ==> exists|s: &mut Self|
                *s == *old(self) && *final(s) == *final(self) && call_ensures(
                    Self::visit_number,
                    (s, node),
                    r,
                ),
            calc_kind_name(CalcKind::Root) == node.kind@ ==> exists|s: &mut Self|
                *s == *old(self) && *final(s) == *final(self) && call_ensures(
                    Self::visit_root,
                    (s, node),
                    r,
                ),
            calc_kind_name(CalcKind::Plus) == node.kind@ ==> exists|s: &mut Self|
                *s == *old(self) && *final(s) == *final(self) && call_ensures(
                    Self::visit_PLUS,
                    (s, node),
                    r,
                ),
    {
        proof {
            lemma_calc_kind_names_distinct();
        }
        let kind = node.kind.clone();
        match calc_kind(kind.as_str()) {
            Some(CalcKind::AddExpr) => {
                let f = Self::visit_add_expr;
                f(self, node)
            },
            Some(CalcKind::Number) => {
                let f = Self::visit_number;
                f(self, node)
            },
            Some(CalcKind::Root) => {
                let f = Self::visit_root;
                f(self, node)
            },
            Some(CalcKind::Plus) => {
                let f = Self::visit_PLUS;
                f(self, node)
            },
            None => Err(VisitError::UnknownKind(kind)),
        }
    }

    /// Visits a node of type `"add_expr"`.
    fn visit_add_expr(&mut self, node: &TaggedNode<Self::Node>) -> Result<Self::ReturnType, VisitError> {
        Err(VisitError::NotImplemented(String::from_str("add_expr")))
    }

    /// Visits a node of type `"number"`.
    fn visit_number(&mut self, node: &TaggedNode<Self::Node>) -> Result<Self::ReturnType, VisitError> {
        Err(VisitError::NotImplemented(String::from_str("number")))
    }

    /// Visits a node of type `"root"`.
    fn visit_root(&mut self, node: &TaggedNode<Self::Node>) -> Result<Self::ReturnType, VisitError> {
        Err(VisitError::NotImplemented(String::from_str("root")))
    }

    /// Visits a node of type `"+"`.
    #[allow(non_snake_case)]
    fn visit_PLUS(&mut self, node: &TaggedNode<Self::Node>) -> Result<Self::ReturnType, VisitError> {
        Err(VisitError::NotImplemented(String::from_str("PLUS")))
    }
}

} // verus!
