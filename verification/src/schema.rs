//! Schemas: ordered column name/type descriptions that batches conform to.

use vstd::prelude::*;
use crate::scalar::ScalarValue;

verus! {

/// The type of every cell of one column.
#[derive(Clone, Copy, Debug, PartialEq, Eq, Structural)]
pub enum DataType {
    /// 32-bit signed integers.
    Int32,
    /// 64-bit signed integers.
    Int64,
    /// UTF-8 strings.
    Utf8,
}

/// Whether a cell value carries the given column type.
pub open spec fn cell_matches(v: ScalarValue, dt: DataType) -> bool {
    match v {
        ScalarValue::Int32(_) => dt == DataType::Int32,
        ScalarValue::Int64(_) => dt == DataType::Int64,
        ScalarValue::Utf8(_) => dt == DataType::Utf8,
    }
}

/// Checks that a cell value carries the given column type.
pub fn check_cell_matches(v: &ScalarValue, dt: DataType) -> (r: bool)
    ensures
        r == cell_matches(*v, dt),
{
    match v {
        ScalarValue::Int32(_) => dt == DataType::Int32,
        ScalarValue::Int64(_) => dt == DataType::Int64,
        ScalarValue::Utf8(_) => dt == DataType::Utf8,
    }
}

/// One named, typed column of a schema.
#[derive(Debug)]
pub struct Field {
    /// The column name.
    pub name: String,
    /// The type of every cell of the column.
    pub data_type: DataType,
    /// Whether cells of the column may be null.
    pub nullable: bool,
}

impl Field {
    /// Creates a field from its parts.
    pub fn new(name: &str, data_type: DataType, nullable: bool) -> (f: Field)
        ensures
            f.name@ == name@,
            f.data_type == data_type,
            f.nullable == nullable,
    {
        Field { name: name.to_owned(), data_type, nullable }
    }
}

impl Clone for Field {
    /// A cloned field is equal to the original.
    fn clone(&self) -> (res: Self)
        ensures
            res == *self,
    {
        Field { name: self.name.clone(), data_type: self.data_type, nullable: self.nullable }
    }
}

/// An ordered list of fields; every batch of a stream conforms to one schema.
#[derive(Debug)]
pub struct Schema {
    /// The fields, in column order.
    pub fields: Vec<Field>,
}

impl Schema {
    /// Creates a schema from its fields.
    pub fn new(fields: Vec<Field>) -> (s: Schema)
        ensures
            s.fields@ == fields@,
    {
        Schema { fields }
    }

    /// The number of columns.
    pub open spec fn spec_len(&self) -> int {
        self.fields@.len() as int
    }

    /// The number of columns.
    pub fn len(&self) -> (n: usize)
        ensures
            n == self.spec_len(),
    {
        self.fields.len()
    }

    /// The schema of a join output: the left fields in order, then the right
    /// fields in order.
    pub fn concat(left: &Schema, right: &Schema) -> (s: Schema)
        ensures
            s.fields@ == left.fields@ + right.fields@,
    {
        let mut fields: Vec<Field> = Vec::new();
        let mut i: usize = 0;
        while i < left.fields.len()
            invariant
                i <= left.fields@.len(),
                fields@ == left.fields@.take(i as int),
            decreases left.fields@.len() - i,
        {
            fields.push(left.fields[i].clone());
            proof {
                assert(left.fields@.take(i + 1 as int).drop_last() =~= left.fields@.take(i as int));
                assert(fields@ =~= left.fields@.take(i + 1 as int));
            }
            i += 1;
        }
        proof {
            assert(fields@ =~= left.fields@);
        }
        let mut j: usize = 0;
        while j < right.fields.len()
            invariant
                j <= right.fields@.len(),
                fields@ == left.fields@ + right.fields@.take(j as int),
            decreases right.fields@.len() - j,
        {
            fields.push(right.fields[j].clone());
            proof {
                assert(fields@ =~= left.fields@ + right.fields@.take(j + 1 as int));
            }
            j += 1;
        }
        proof {
            assert(fields@ =~= left.fields@ + right.fields@);
        }
        Schema { fields }
    }
}

/// Whether two fields describe the same column: same name, type and
/// nullability.
pub open spec fn spec_field_eq(a: Field, b: Field) -> bool {
    &&& a.name@ == b.name@
    &&& a.data_type == b.data_type
    &&& a.nullable == b.nullable
}

/// Whether two field lists describe the same columns, in the same order.
pub open spec fn spec_fields_eq(a: Seq<Field>, b: Seq<Field>) -> bool {
    a.len() == b.len() && forall|i: int| 0 <= i < a.len() ==> spec_field_eq(#[trigger] a[i], b[i])
}

/// Checks whether two schemas declare the same columns.
pub fn schema_eq(a: &Schema, b: &Schema) -> (r: bool)
    ensures
        r == spec_fields_eq(a.fields@, b.fields@),
{
    if a.fields.len() != b.fields.len() {
        return false;
    }
    let mut i: usize = 0;
    while i < a.fields.len()
        invariant
            i <= a.fields@.len(),
            a.fields@.len() == b.fields@.len(),
            forall|k: int| 0 <= k < i ==> spec_field_eq(#[trigger] a.fields@[k], b.fields@[k]),
        decreases a.fields@.len() - i,
    {
        let fa = &a.fields[i];
        let fb = &b.fields[i];
        if !(fa.name == fb.name) || fa.data_type != fb.data_type || fa.nullable != fb.nullable {
            return false;
        }
        i += 1;
    }
    true
}

impl Clone for Schema {
    /// A cloned schema has the same fields.
    fn clone(&self) -> (res: Self)
        ensures
            res.fields@ == self.fields@,
    {
        let res = Schema { fields: self.fields.clone() };
        proof {
            assert(res.fields@ =~= self.fields@);
        }
        res
    }
}

} // verus!
