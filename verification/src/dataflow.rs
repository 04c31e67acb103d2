//! Descriptions of installed work: sources, views and sinks.

use vstd::prelude::*;
use crate::repr::{RelationType, RelationTypeV, relation_type_copy};
use crate::expr::{Expr, ExprV, expr_copy};

verus! {

/// How a source is fed: by sessions of this server (`Local`) or by an
/// upstream owner that drives its capability (`External`).
#[derive(Clone, Copy, PartialEq, Eq, Structural, Debug)]
pub enum SourceConnector {
    Local,
    External,
}

/// A named, typed description of installed work.
#[derive(Debug, PartialEq, Eq)]
pub enum Dataflow {
    /// An externally or locally fed input.
    Source { name: String, connector: SourceConnector, typ: RelationType },
    /// A derived relation built from an expression.
    View { name: String, relation_expr: Expr, typ: RelationType },
    /// An egress; dropping one removes only its name.
    Sink { name: String, typ: RelationType },
}

/// The mathematical value of a `Dataflow`.
pub enum DataflowV {
    Source { name: Seq<char>, connector: SourceConnector, typ: RelationTypeV },
    View { name: Seq<char>, relation_expr: ExprV, typ: RelationTypeV },
    Sink { name: Seq<char>, typ: RelationTypeV },
}

impl DeepView for Dataflow {
    type V = DataflowV;

    open spec fn deep_view(&self) -> DataflowV {
        match self {
            Dataflow::Source { name, connector, typ } => DataflowV::Source {
                name: name@,
                connector: *connector,
                typ: typ.deep_view(),
            },
            Dataflow::View { name, relation_expr, typ } => DataflowV::View {
                name: name@,
                relation_expr: relation_expr.deep_view(),
                typ: typ.deep_view(),
            },
            Dataflow::Sink { name, typ } => DataflowV::Sink { name: name@, typ: typ.deep_view() },
        }
    }
}

/// The name of a dataflow.
pub open spec fn spec_df_name(d: DataflowV) -> Seq<char> {
    match d {
        DataflowV::Source { name, .. } => name,
        DataflowV::View { name, .. } => name,
        DataflowV::Sink { name, .. } => name,
    }
}

/// The schema of a dataflow.
pub open spec fn spec_df_typ(d: DataflowV) -> RelationTypeV {
    match d {
        DataflowV::Source { typ, .. } => typ,
        DataflowV::View { typ, .. } => typ,
        DataflowV::Sink { typ, .. } => typ,
    }
}

impl Dataflow {
    /// The name of this dataflow.
    pub fn name(&self) -> (n: &String)
        ensures
            n@ == spec_df_name(self.deep_view()),
    {
        match self {
            Dataflow::Source { name, .. } => name,
            Dataflow::View { name, .. } => name,
            Dataflow::Sink { name, .. } => name,
        }
    }

    /// The schema of this dataflow.
    pub fn typ(&self) -> (t: &RelationType)
        ensures
            t.deep_view() == spec_df_typ(self.deep_view()),
    {
        match self {
            Dataflow::Source { typ, .. } => typ,
            Dataflow::View { typ, .. } => typ,
            Dataflow::Sink { typ, .. } => typ,
        }
    }
}

/// A fresh dataflow description with the same content.
pub fn dataflow_copy(d: &Dataflow) -> (r: Dataflow)
    ensures
        r.deep_view() == d.deep_view(),
{
    match d {
        Dataflow::Source { name, connector, typ } => Dataflow::Source {
            name: name.clone(),
            connector: *connector,
            typ: relation_type_copy(typ),
        },
        Dataflow::View { name, relation_expr, typ } => Dataflow::View {
            name: name.clone(),
            relation_expr: expr_copy(relation_expr),
            typ: relation_type_copy(typ),
        },
        Dataflow::Sink { name, typ } => Dataflow::Sink {
            name: name.clone(),
            typ: relation_type_copy(typ),
        },
    }
}

} // verus!
