//! The typed values that extraction produces when a specification is
//! interpreted at run time.

use vstd::prelude::*;

verus! {

/// One extracted value.
#[derive(Debug, PartialEq)]
pub enum Value {
    UintVal(u64),
    IntVal(i64),
    BoolVal(bool),
    StrVal(String),
    ListVal(Vec<Value>),
    TupleVal(Vec<Value>),
    StructVal(StructValue),
    OptVal(Option<Box<Value>>),
}

/// The extraction result of one structure: its name and its field slots, in
/// declaration order (a tuple field contributes one slot per member).
#[derive(Debug, PartialEq)]
pub struct StructValue {
    pub name: String,
    pub fields: Vec<(String, Value)>,
}

impl StructValue {
    /// The first value stored under `name`, if any.
    pub fn get(&self, name: &str) -> (r: Option<&Value>)
        ensures
            match r {
                Some(v) => exists|i: int|
                    0 <= i < self.fields@.len() && #[trigger] self.fields@[i].0@ == name@
                        && v == &self.fields@[i].1,
                None => forall|i: int|
                    0 <= i < self.fields@.len() ==> #[trigger] self.fields@[i].0@ != name@,
            },
    {
        let mut i: usize = 0;
        while i < self.fields.len()
            invariant
                0 <= i <= self.fields@.len(),
                forall|k: int| 0 <= k < i ==> #[trigger] self.fields@[k].0@ != name@,
            decreases self.fields@.len() - i,
        {
            if crate::strutil::str_eq(self.fields[i].0.as_str(), name) {
                return Some(&self.fields[i].1);
            }
            i = i + 1;
        }
        None
    }
}

} // verus!
