//! Single-cell values of the columnar data model.

use vstd::prelude::*;

verus! {

/// The value of one cell of a column: a typed value or a typed null.
#[derive(Debug, PartialEq)]
pub enum ScalarValue {
    /// A 32-bit signed integer, or a null of that type.
    Int32(Option<i32>),
    /// A 64-bit signed integer, or a null of that type.
    Int64(Option<i64>),
    /// A UTF-8 string, or a null of that type.
    Utf8(Option<String>),
}

impl ScalarValue {
    /// Whether the cell is a (typed) null.
    pub open spec fn spec_is_null(&self) -> bool {
        match self {
            ScalarValue::Int32(v) => v is None,
            ScalarValue::Int64(v) => v is None,
            ScalarValue::Utf8(v) => v is None,
        }
    }

    /// Whether the cell is a (typed) null.
    #[verifier::when_used_as_spec(spec_is_null)]
    pub fn is_null(&self) -> (r: bool)
        ensures
            r == self.spec_is_null(),
    {
        match self {
            ScalarValue::Int32(v) => v.is_none(),
            ScalarValue::Int64(v) => v.is_none(),
            ScalarValue::Utf8(v) => v.is_none(),
        }
    }

    /// The nominal number of bytes the cell occupies in memory. The model
    /// charges a fixed size per cell type, null or not, mirroring a columnar
    /// layout that allocates its buffers up front.
    pub open spec fn spec_byte_size(&self) -> int {
        match self {
            ScalarValue::Int32(_) => 4,
            ScalarValue::Int64(_) => 8,
            ScalarValue::Utf8(_) => 16,
        }
    }

    /// The nominal number of bytes the cell occupies in memory.
    pub fn byte_size(&self) -> (n: usize)
        ensures
            n == self.spec_byte_size(),
    {
        match self {
            ScalarValue::Int32(_) => 4,
            ScalarValue::Int64(_) => 8,
            ScalarValue::Utf8(_) => 16,
        }
    }
}

impl Clone for ScalarValue {
    /// A cloned cell is equal to the original.
    fn clone(&self) -> (res: Self)
        ensures
            res == *self,
    {
        match self {
            ScalarValue::Int32(v) => ScalarValue::Int32(*v),
            ScalarValue::Int64(v) => ScalarValue::Int64(*v),
            ScalarValue::Utf8(v) => ScalarValue::Utf8(
                match v {
                    Some(s) => Some(s.clone()),
                    None => None,
                },
            ),
        }
    }
}

} // verus!
