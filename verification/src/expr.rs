//! Relational expressions: the structural description of a relation.
//!
//! An expression either names an installed relation (`Get`) or describes a
//! transient computation over other relations. Equality of expressions is
//! the lookup key of the trace registry.

use vstd::prelude::*;
use crate::repr::{RelationType, RelationTypeV, relation_type_eq, relation_type_copy, string_eq};

verus! {

/// A relational expression.
#[derive(Debug, PartialEq, Eq)]
pub enum Expr {
    /// Names an installed relation together with its schema.
    Get { name: String, typ: RelationType },
    /// The multiset union of two relations of the same schema.
    Union { left: Box<Expr>, right: Box<Expr> },
}

/// The mathematical value of an `Expr`.
pub enum ExprV {
    Get { name: Seq<char>, typ: RelationTypeV },
    Union { left: Box<ExprV>, right: Box<ExprV> },
}

/// The mathematical value of an expression.
pub open spec fn expr_dv(e: Expr) -> ExprV
    decreases e,
{
    match e {
        Expr::Get { name, typ } => ExprV::Get { name: name@, typ: typ.deep_view() },
        Expr::Union { left, right } => ExprV::Union {
            left: Box::new(expr_dv(*left)),
            right: Box::new(expr_dv(*right)),
        },
    }
}

impl DeepView for Expr {
    type V = ExprV;

    open spec fn deep_view(&self) -> ExprV {
        expr_dv(*self)
    }
}

/// The schema of the relation an expression describes.
pub open spec fn spec_expr_typ(e: ExprV) -> RelationTypeV
    decreases e,
{
    match e {
        ExprV::Get { typ, .. } => typ,
        ExprV::Union { left, .. } => spec_expr_typ(*left),
    }
}

/// The names of the installed relations an expression reads, left to right.
pub open spec fn spec_expr_uses(e: ExprV) -> Seq<Seq<char>>
    decreases e,
{
    match e {
        ExprV::Get { name, .. } => seq![name],
        ExprV::Union { left, right } => spec_expr_uses(*left) + spec_expr_uses(*right),
    }
}

impl Expr {
    /// The schema of the relation this expression describes.
    pub fn typ(&self) -> (t: &RelationType)
        ensures
            t.deep_view() == spec_expr_typ(self.deep_view()),
        decreases self,
    {
        match self {
            Expr::Get { typ, .. } => typ,
            Expr::Union { left, .. } => left.typ(),
        }
    }

    /// The names of the installed relations this expression reads.
    pub fn uses(&self) -> (u: Vec<String>)
        ensures
            u.deep_view() == spec_expr_uses(self.deep_view()),
        decreases self,
    {
        match self {
            Expr::Get { name, .. } => {
                let mut out: Vec<String> = Vec::new();
                out.push(name.clone());
                assert(out.deep_view() =~= spec_expr_uses(self.deep_view()));
                out
            }
            Expr::Union { left, right } => {
                let mut out = left.uses();
                let mut r = right.uses();
                let ghost pre = out.deep_view();
                let ghost prer = r.deep_view();
                out.append(&mut r);
                assert(out.deep_view() =~= pre + prer);
                out
            }
        }
    }
}

/// Whether two expressions are equal.
pub fn expr_eq(a: &Expr, b: &Expr) -> (r: bool)
    ensures
        r == (a.deep_view() == b.deep_view()),
    decreases a,
{
    match (a, b) {
        (Expr::Get { name: n1, typ: t1 }, Expr::Get { name: n2, typ: t2 }) => {
            string_eq(n1, n2) && relation_type_eq(t1, t2)
        }
        (Expr::Union { left: l1, right: r1 }, Expr::Union { left: l2, right: r2 }) => {
            expr_eq(l1, l2) && expr_eq(r1, r2)
        }
        _ => false,
    }
}

/// A fresh expression with the same content.
pub fn expr_copy(e: &Expr) -> (r: Expr)
    ensures
        r.deep_view() == e.deep_view(),
    decreases e,
{
    match e {
        Expr::Get { name, typ } => Expr::Get { name: name.clone(), typ: relation_type_copy(typ) },
        Expr::Union { left, right } => Expr::Union {
            left: Box::new(expr_copy(left)),
            right: Box::new(expr_copy(right)),
        },
    }
}

} // verus!
