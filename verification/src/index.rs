//! Path-based access into a [`Value`] tree.
//!
//! An [`Index`] is one step of navigation: an array position or an object
//! key.  Indexing is total — any mismatch (wrong variant, missing key,
//! position out of range) yields `None` rather than an error — and steps
//! compose across nesting levels through [`Value::index_into`].

use vstd::prelude::*;

use crate::value::entries_deep;
use crate::value::find_key;
use crate::value::lemma_find_key;
use crate::value::lemma_find_key_first;
use crate::value::obj_lookup;
use crate::value::SpecValue;
use crate::value::Value;

verus! {

/// A capability to index one level into a [`Value`].
pub trait Index {
    /// The lookup this index denotes on a model tree.
    spec fn lookup(&self, v: SpecValue) -> Option<SpecValue>;

    /// Borrows the sub-value this index selects in `v`, or `None` when the
    /// index does not apply to `v`.
    fn get<'v>(&self, v: &'v Value) -> (r: Option<&'v Value>)
        ensures
            match r {
                Some(x) => self.lookup(v@) == Some(x@),
                None => self.lookup(v@) is None,
            },
    ;
}

impl Index for usize {
    /// An array position: defined exactly on arrays long enough.
    open spec fn lookup(&self, v: SpecValue) -> Option<SpecValue> {
        match v {
            SpecValue::Arr(s) => if *self < s.len() {
                Some(s[*self as int])
            } else {
                None
            },
            _ => None,
        }
    }

    fn get<'v>(&self, v: &'v Value) -> (r: Option<&'v Value>) {
        match v {
            Value::Array(a) => {
                if *self < a.len() {
                    Some(&a[*self])
                } else {
                    None
                }
            },
            _ => None,
        }
    }
}

impl Index for String {
    /// An object key: defined exactly on objects holding the key.
    open spec fn lookup(&self, v: SpecValue) -> Option<SpecValue> {
        match v {
            SpecValue::Obj(entries) => obj_lookup(entries, self@),
            _ => None,
        }
    }

    fn get<'v>(&self, v: &'v Value) -> (r: Option<&'v Value>) {
        match v {
            Value::Object(m) => {
                let ghost entries = entries_deep(m@);
                let mut i: usize = 0;
                while i < m.len()
                    invariant
                        i <= m.len(),
                        entries == entries_deep(m@),
                        v@ == SpecValue::Obj(entries),
                        forall|j: int| 0 <= j < i ==> entries[j].0 != self@,
                    decreases m.len() - i,
                {
                    let entry = &m[i];
                    if entry.0 == *self {
                        proof {
                            assert(entries[i as int] == (m@[i as int].0@, m@[i as int].1.deep()));
                            lemma_find_key_first(entries, self@, i as int);
                        }
                        return Some(&entry.1);
                    }
                    i += 1;
                }
                proof {
                    lemma_find_key(entries, self@);
                }
                None
            },
            _ => None,
        }
    }
}

impl Value {
    /// Borrows the sub-value that `i` selects in this tree, or `None` when
    /// the index does not apply.
    pub fn index_into<I: Index>(&self, i: I) -> (r: Option<&Value>)
        ensures
            match r {
                Some(x) => i.lookup(self@) == Some(x@),
                None => i.lookup(self@) is None,
            },
    {
        i.get(self)
    }
}

} // verus!
