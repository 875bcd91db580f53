//! The shape of a dataset: an ordered list of column name/type pairs,
//! and a minimal in-memory dataset carrying such a schema. The plan
//! transforms read nothing of a dataset beyond its schema, so the dataset
//! is modeled by its schema and its row count.

use vstd::prelude::*;

verus! {

/// One column of a schema: its name and the name of its data type.
pub struct ColumnDef {
    pub name: String,
    pub dtype: String,
}

impl ColumnDef {
    /// An exact copy of this column definition.
    pub fn duplicate(&self) -> (r: Self)
        ensures
            r == *self,
    {
        ColumnDef { name: self.name.clone(), dtype: self.dtype.clone() }
    }
}

/// An ordered list of column definitions describing a dataset's shape.
pub struct Schema {
    pub columns: Vec<ColumnDef>,
}

impl View for Schema {
    type V = Seq<ColumnDef>;

    open spec fn view(&self) -> Seq<ColumnDef> {
        self.columns@
    }
}

impl Schema {
    /// A schema with the given columns.
    pub fn new(columns: Vec<ColumnDef>) -> (r: Self)
        ensures
            r@ == columns@,
    {
        Schema { columns }
    }

    /// The number of columns.
    pub fn len(&self) -> (n: usize)
        ensures
            n == self@.len(),
    {
        self.columns.len()
    }

    /// A copy of this schema, column for column.
    pub fn duplicate(&self) -> (r: Self)
        ensures
            r@ == self@,
    {
        let mut columns: Vec<ColumnDef> = Vec::new();
        let mut i: usize = 0;
        while i < self.columns.len()
            invariant
                i <= self.columns.len(),
                columns@ == self.columns@.subrange(0, i as int),
            decreases self.columns.len() - i,
        {
            columns.push(self.columns[i].duplicate());
            i = i + 1;
        }
        assert(columns@ == self.columns@);
        Schema { columns }
    }
}

/// The abstract value of a [`DataFrame`]: its schema and its row count.
#[verifier::ext_equal]
pub struct DataFrameV {
    pub schema: Seq<ColumnDef>,
    pub height: usize,
}

/// A concrete in-memory dataset. The plan core is oblivious to the cell
/// values; it reads only the schema (and carries the row count along), so
/// that is all the type holds.
pub struct DataFrame {
    pub schema: Schema,
    pub height: usize,
}

impl View for DataFrame {
    type V = DataFrameV;

    open spec fn view(&self) -> DataFrameV {
        DataFrameV { schema: self.schema@, height: self.height }
    }
}

impl DataFrame {
    /// A dataset with the given schema and row count.
    pub fn new(schema: Schema, height: usize) -> (r: Self)
        ensures
            r@ == (DataFrameV { schema: schema@, height }),
    {
        DataFrame { schema, height }
    }

    /// The schema of this dataset.
    pub fn schema(&self) -> (r: &Schema)
        ensures
            r@ == self@.schema,
    {
        &self.schema
    }

    /// A copy of this dataset.
    pub fn duplicate(&self) -> (r: Self)
        ensures
            r@ == self@,
    {
        DataFrame { schema: self.schema.duplicate(), height: self.height }
    }
}

/// The abstract value of an optional schema.
pub open spec fn opt_schema_view(o: Option<Schema>) -> Option<Seq<ColumnDef>> {
    match o {
        Some(s) => Some(s@),
        None => None,
    }
}

/// A copy of an optional schema.
pub fn duplicate_opt_schema(o: &Option<Schema>) -> (r: Option<Schema>)
    ensures
        opt_schema_view(r) == opt_schema_view(*o),
{
    match o {
        Some(s) => Some(s.duplicate()),
        None => None,
    }
}

} // verus!
