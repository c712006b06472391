//! The fixed record schema and schema comparison.
//!
//! The table's schema is pinned at creation: three non-nullable columns,
//! `idx` as 64-bit integer, `name` as UTF-8 string, `timestamp` with
//! microsecond precision.  An existing table whose schema differs is
//! refused before any write is attempted.

use vstd::prelude::*;

verus! {

#[derive(Clone, Copy, PartialEq, Eq, Structural, Debug)]
pub enum ColumnType {
    Int64,
    Int32,
    Utf8,
    TimestampMicros,
}

/// Spec-level image of one column declaration.
pub ghost struct ColumnSpecView {
    pub name: Seq<char>,
    pub dtype: ColumnType,
    pub nullable: bool,
}

/// One column declaration of a table schema.
pub struct ColumnSpec {
    pub name: String,
    pub dtype: ColumnType,
    pub nullable: bool,
}

impl View for ColumnSpec {
    type V = ColumnSpecView;

    open spec fn view(&self) -> ColumnSpecView {
        ColumnSpecView { name: self.name@, dtype: self.dtype, nullable: self.nullable }
    }
}

impl DeepView for ColumnSpec {
    type V = ColumnSpecView;

    open spec fn deep_view(&self) -> ColumnSpecView {
        self@
    }
}

impl Clone for ColumnSpec {
    fn clone(&self) -> (r: Self)
        ensures
            r@ == self@,
    {
        ColumnSpec { name: self.name.clone(), dtype: self.dtype, nullable: self.nullable }
    }
}

/// A table schema: its columns in order.
pub struct TableSchema {
    pub columns: Vec<ColumnSpec>,
}

impl View for TableSchema {
    type V = Seq<ColumnSpecView>;

    open spec fn view(&self) -> Seq<ColumnSpecView> {
        self.columns.deep_view()
    }
}

impl Clone for TableSchema {
    fn clone(&self) -> (r: Self)
        ensures
            r@ == self@,
    {
        let mut columns: Vec<ColumnSpec> = Vec::new();
        let mut i: usize = 0;
        while i < self.columns.len()
            invariant
                i <= self.columns@.len(),
                columns@.len() == i,
                forall|k: int| 0 <= k < i ==> columns@[k]@ == self.columns@[k]@,
            decreases self.columns@.len() - i,
        {
            columns.push(self.columns[i].clone());
            i = i + 1;
        }
        proof {
            assert forall|k: int|
                0 <= k < columns@.len() implies columns.deep_view()[k]
                == self.columns.deep_view()[k] by {
                assert(columns.deep_view()[k] == columns@[k]@);
                assert(self.columns.deep_view()[k] == self.columns@[k]@);
            }
            assert(columns.deep_view() =~= self.columns.deep_view());
        }
        TableSchema { columns }
    }
}

/// The pinned record schema.
pub open spec fn record_schema_view() -> Seq<ColumnSpecView> {
    seq![
        (ColumnSpecView { name: "idx"@, dtype: ColumnType::Int64, nullable: false }),
        (ColumnSpecView { name: "name"@, dtype: ColumnType::Utf8, nullable: false }),
        (ColumnSpecView { name: "timestamp"@, dtype: ColumnType::TimestampMicros, nullable: false }),
    ]
}

/// Build the pinned record schema.
pub fn record_schema() -> (s: TableSchema)
    ensures
        s@ =~= record_schema_view(),
{
    let mut columns: Vec<ColumnSpec> = Vec::new();
    columns.push(ColumnSpec { name: "idx".to_owned(), dtype: ColumnType::Int64, nullable: false });
    columns.push(
        ColumnSpec { name: "name".to_owned(), dtype: ColumnType::Utf8, nullable: false },
    );
    columns.push(
        ColumnSpec {
            name: "timestamp".to_owned(),
            dtype: ColumnType::TimestampMicros,
            nullable: false,
        },
    );
    let s = TableSchema { columns };
    proof {
        assert(s@ =~= record_schema_view());
    }
    s
}

/// Column-by-column equality of two schemas.
pub open spec fn schema_eq(a: Seq<ColumnSpecView>, b: Seq<ColumnSpecView>) -> bool {
    a.len() == b.len() && forall|i: int| 0 <= i < a.len() ==> a[i] == b[i]
}

/// Decide whether two schemas declare the same columns in the same order.
pub fn schemas_match(a: &TableSchema, b: &TableSchema) -> (r: bool)
    ensures
        r == schema_eq(a@, b@),
{
    if a.columns.len() != b.columns.len() {
        return false;
    }
    let mut i: usize = 0;
    while i < a.columns.len()
        invariant
            i <= a.columns@.len(),
            a.columns@.len() == b.columns@.len(),
            forall|k: int| 0 <= k < i ==> a@[k] == b@[k],
        decreases a.columns@.len() - i,
    {
        let ca = &a.columns[i];
        let cb = &b.columns[i];
        proof {
            assert(a@[i as int] == a.columns@[i as int]@);
            assert(b@[i as int] == b.columns@[i as int]@);
        }
        let names_equal = ca.name == cb.name;
        let types_equal = ca.dtype == cb.dtype;
        if !(names_equal && types_equal && ca.nullable == cb.nullable) {
            return false;
        }
        proof {
            assert(a@[i as int] == b@[i as int]);
        }
        i = i + 1;
    }
    true
}

} // verus!
