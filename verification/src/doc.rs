//! The stored representation: a book document is an ordered list of fields,
//! each a name paired with a value. Values mirror what the document store can
//! hold of a book record; an array field may mix value shapes, and readers
//! keep only the text entries.

use vstd::prelude::*;

verus! {

use crate::oid::ObjectId;

/// The field names a book document can carry. Fields outside this set take
/// no part in the record mapping and are dropped at the store boundary.
#[derive(Clone, Copy, PartialEq, Eq, Structural, Debug)]
pub enum FieldName {
    Id,
    Name,
    Author,
    NumPages,
    AddedAt,
    Tags,
}

/// A stored field value.
pub enum Value {
    ObjectId(ObjectId),
    Text(String),
    Int32(i32),
    DateTime(i64),
    Array(Vec<Value>),
}

/// A document: the fields in storage order.
pub struct Doc {
    pub entries: Vec<(FieldName, Value)>,
}

/// The value of the first field named `f`, if any.
pub open spec fn lookup(entries: Seq<(FieldName, Value)>, f: FieldName) -> Option<Value>
    decreases entries.len(),
{
    if entries.len() == 0 {
        None
    } else if entries[0].0 == f {
        Some(entries[0].1)
    } else {
        lookup(entries.skip(1), f)
    }
}

impl Doc {
    /// Look a field up by name; returns the first field so named.
    pub fn get(&self, f: FieldName) -> (r: Option<&Value>)
        ensures
            r matches Some(v) ==> lookup(self.entries@, f) == Some(*v),
            r is None ==> lookup(self.entries@, f) is None,
    {
        let n = self.entries.len();
        let mut i: usize = 0;
        proof {
            assert(self.entries@.skip(0) =~= self.entries@);
        }
        while i < n
            invariant
                n == self.entries@.len(),
                0 <= i <= n,
                lookup(self.entries@, f) == lookup(self.entries@.skip(i as int), f),
            decreases n - i,
        {
            proof {
                assert(self.entries@.skip(i as int)[0] == self.entries@[i as int]);
                assert(self.entries@.skip(i as int).skip(1) =~= self.entries@.skip(i + 1));
            }
            if self.entries[i].0 == f {
                return Some(&self.entries[i].1);
            }
            i = i + 1;
        }
        None
    }
}

} // verus!
