//! Relational values and types: the rows a dataflow stores and the schema
//! that names a relation's columns.

use vstd::prelude::*;

verus! {

/// The scalar type of one column.
#[derive(Clone, Copy, PartialEq, Eq, Structural, Debug)]
pub enum ScalarType {
    Int64,
    String,
}

/// One value inside a row.
#[derive(Clone, Debug, PartialEq, Eq)]
pub enum Datum {
    Int64(i64),
    String(String),
}

/// The mathematical value of a `Datum`.
pub enum DatumV {
    Int64(i64),
    Str(Seq<char>),
}

impl DeepView for Datum {
    type V = DatumV;

    open spec fn deep_view(&self) -> DatumV {
        match self {
            Datum::Int64(i) => DatumV::Int64(*i),
            Datum::String(s) => DatumV::Str(s@),
        }
    }
}

/// A record: one row of a relation.
pub type Row = Vec<Datum>;

/// The mathematical value of a row.
pub type RowV = Seq<DatumV>;

/// Whether two strings hold the same characters.
pub fn string_eq(a: &String, b: &String) -> (r: bool)
    ensures
        r == (a@ == b@),
{
    a.eq(b)
}

/// Whether two datums hold the same value.
pub fn datum_eq(a: &Datum, b: &Datum) -> (r: bool)
    ensures
        r == (a.deep_view() == b.deep_view()),
{
    match (a, b) {
        (Datum::Int64(x), Datum::Int64(y)) => x == y,
        (Datum::String(x), Datum::String(y)) => string_eq(x, y),
        _ => false,
    }
}

/// A fresh datum holding the same value.
pub fn datum_copy(d: &Datum) -> (r: Datum)
    ensures
        r.deep_view() == d.deep_view(),
{
    match d {
        Datum::Int64(i) => Datum::Int64(*i),
        Datum::String(s) => Datum::String(s.clone()),
    }
}

/// Whether two rows hold the same values in the same order.
pub fn row_eq(a: &Row, b: &Row) -> (r: bool)
    ensures
        r == (a.deep_view() == b.deep_view()),
{
    if a.len() != b.len() {
        assert(a.deep_view().len() != b.deep_view().len());
        return false;
    }
    let n = a.len();
    let mut i: usize = 0;
    while i < n
        invariant
            n == a@.len() && n == b@.len(),
            i <= n,
            forall|j: int| 0 <= j < i ==> a.deep_view()[j] == b.deep_view()[j],
        decreases n - i,
    {
        if !datum_eq(&a[i], &b[i]) {
            assert(a.deep_view()[i as int] != b.deep_view()[i as int]);
            return false;
        }
        i += 1;
    }
    assert(a.deep_view() =~= b.deep_view());
    true
}

/// A fresh row holding the same values.
pub fn row_copy(r0: &Row) -> (r: Row)
    ensures
        r.deep_view() == r0.deep_view(),
{
    let mut out: Row = Vec::new();
    let n = r0.len();
    let mut i: usize = 0;
    while i < n
        invariant
            n == r0@.len(),
            i <= n,
            out@.len() == i,
            forall|j: int| 0 <= j < i ==> out.deep_view()[j] == r0.deep_view()[j],
        decreases n - i,
    {
        out.push(datum_copy(&r0[i]));
        i += 1;
    }
    assert(out.deep_view() =~= r0.deep_view());
    out
}

/// Fresh rows holding the same values.
pub fn rows_copy(rs: &Vec<Row>) -> (r: Vec<Row>)
    ensures
        r.deep_view() == rs.deep_view(),
{
    let mut out: Vec<Row> = Vec::new();
    let n = rs.len();
    let mut i: usize = 0;
    while i < n
        invariant
            n == rs@.len(),
            i <= n,
            out@.len() == i,
            forall|j: int| 0 <= j < i ==> out.deep_view()[j] == rs.deep_view()[j],
        decreases n - i,
    {
        out.push(row_copy(&rs[i]));
        i += 1;
    }
    assert(out.deep_view() =~= rs.deep_view());
    out
}

/// The schema of one column.
#[derive(Clone, Debug, PartialEq, Eq)]
pub struct ColumnType {
    pub name: String,
    pub nullable: bool,
    pub scalar_type: ScalarType,
}

/// The mathematical value of a `ColumnType`.
pub struct ColumnTypeV {
    pub name: Seq<char>,
    pub nullable: bool,
    pub scalar_type: ScalarType,
}

impl DeepView for ColumnType {
    type V = ColumnTypeV;

    open spec fn deep_view(&self) -> ColumnTypeV {
        ColumnTypeV { name: self.name@, nullable: self.nullable, scalar_type: self.scalar_type }
    }
}

/// The schema of a relation.
#[derive(Clone, Debug, PartialEq, Eq)]
pub struct RelationType {
    pub columns: Vec<ColumnType>,
}

/// The mathematical value of a `RelationType`.
pub struct RelationTypeV {
    pub columns: Seq<ColumnTypeV>,
}

impl DeepView for RelationType {
    type V = RelationTypeV;

    open spec fn deep_view(&self) -> RelationTypeV {
        RelationTypeV { columns: self.columns.deep_view() }
    }
}

/// Whether two column schemas are equal.
pub fn column_type_eq(a: &ColumnType, b: &ColumnType) -> (r: bool)
    ensures
        r == (a.deep_view() == b.deep_view()),
{
    string_eq(&a.name, &b.name) && a.nullable == b.nullable && a.scalar_type == b.scalar_type
}

/// A fresh column schema with the same content.
pub fn column_type_copy(c: &ColumnType) -> (r: ColumnType)
    ensures
        r.deep_view() == c.deep_view(),
{
    ColumnType { name: c.name.clone(), nullable: c.nullable, scalar_type: c.scalar_type }
}

/// Whether two relation schemas are equal.
pub fn relation_type_eq(a: &RelationType, b: &RelationType) -> (r: bool)
    ensures
        r == (a.deep_view() == b.deep_view()),
{
    if a.columns.len() != b.columns.len() {
        assert(a.deep_view().columns.len() != b.deep_view().columns.len());
        return false;
    }
    let n = a.columns.len();
    let mut i: usize = 0;
    while i < n
        invariant
            n == a.columns@.len() && n == b.columns@.len(),
            i <= n,
            forall|j: int| 0 <= j < i ==> a.deep_view().columns[j] == b.deep_view().columns[j],
        decreases n - i,
    {
        if !column_type_eq(&a.columns[i], &b.columns[i]) {
            assert(a.deep_view().columns[i as int] != b.deep_view().columns[i as int]);
            return false;
        }
        i += 1;
    }
    assert(a.deep_view().columns =~= b.deep_view().columns);
    true
}

/// A fresh relation schema with the same content.
pub fn relation_type_copy(t: &RelationType) -> (r: RelationType)
    ensures
        r.deep_view() == t.deep_view(),
{
    let mut columns: Vec<ColumnType> = Vec::new();
    let n = t.columns.len();
    let mut i: usize = 0;
    while i < n
        invariant
            n == t.columns@.len(),
            i <= n,
            columns@.len() == i,
            forall|j: int| 0 <= j < i ==> columns.deep_view()[j] == t.columns.deep_view()[j],
        decreases n - i,
    {
        let c = column_type_copy(&t.columns[i]);
        let ghost pre = columns.deep_view();
        columns.push(c);
        assert(columns.deep_view() =~= pre.push(c.deep_view()));
        i += 1;
    }
    assert(columns.deep_view() =~= t.columns.deep_view());
    RelationType { columns }
}

} // verus!
