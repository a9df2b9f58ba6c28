//! The value tree produced by the parser, and its mathematical model.
//!
//! [`Value`] is a closed tagged union.  Arrays keep their source order;
//! objects are sequences of key/value entries whose keys are unique at rest
//! (a repeated source key is resolved last-write-wins while parsing).
//! [`SpecValue`] is the ghost model of a tree: every contract of the library
//! speaks of values through it.

use vstd::prelude::*;

verus! {

broadcast use vstd::std_specs::vec::group_vec_axioms;

/// The decimal components of a floating-point literal, kept losslessly.
///
/// The literal denotes
/// `(-1)^neg * (whole + frac / 10^frac_len) * 10^((-1)^exp_neg * exp)`.
/// Keeping the parts avoids any rounding inside the parser; a consumer can
/// combine them into its preferred floating representation.
#[derive(Clone, Copy, Debug, PartialEq, Eq, Structural)]
pub struct FloatLit {
    /// Whether the literal has a leading `-`.
    pub neg: bool,
    /// The integer part, accumulated left-to-right.
    pub whole: u64,
    /// The fraction digits, accumulated left-to-right as an integer.
    pub frac: u64,
    /// How many fraction digits there are (leading zeros included).
    pub frac_len: usize,
    /// Whether the exponent has a `-` sign.
    pub exp_neg: bool,
    /// The absolute value of the exponent.
    pub exp: u64,
}

/// A numeric literal, distinguishing its lexical form losslessly.
#[derive(Clone, Copy, Debug, PartialEq, Eq, Structural)]
pub enum Number {
    /// An integer literal with no sign, no fraction and no exponent.
    PosInt(u64),
    /// An integer literal with a leading `-`, no fraction and no exponent.
    NegInt(i64),
    /// Any literal with a fraction part and/or an exponent part.
    Float(FloatLit),
}

/// The ghost model of a value tree.
///
/// Object entries are a sequence of key/value pairs in insertion order with
/// unique keys; [`obj_lookup`] gives the mapping they denote.
pub enum SpecValue {
    Null,
    Bool(bool),
    Num(Number),
    Str(Seq<char>),
    Arr(Seq<SpecValue>),
    Obj(Seq<(Seq<char>, SpecValue)>),
}

/// A dynamically typed value tree.
#[derive(Debug, PartialEq)]
pub enum Value {
    Null,
    Boolean(bool),
    Number(Number),
    String(String),
    Array(Vec<Value>),
    Object(Vec<(String, Value)>),
}

/// The model of a sequence of array elements.
pub open spec fn seq_deep(s: Seq<Value>) -> Seq<SpecValue>
    decreases s,
{
    Seq::new(s.len(), |i: int| if 0 <= i < s.len() { s[i].deep() } else { SpecValue::Null })
}

/// The model of a sequence of object entries.
pub open spec fn entries_deep(s: Seq<(String, Value)>) -> Seq<(Seq<char>, SpecValue)>
    decreases s,
{
    Seq::new(
        s.len(),
        |i: int|
            if 0 <= i < s.len() {
                (s[i].0@, s[i].1.deep())
            } else {
                (Seq::<char>::empty(), SpecValue::Null)
            },
    )
}

/// The first entry with key `k`, or `-1` when no entry has it.
pub open spec fn find_key(entries: Seq<(Seq<char>, SpecValue)>, k: Seq<char>) -> int
    decreases entries.len(),
{
    if entries.len() == 0 {
        -1
    } else if entries[0].0 == k {
        0
    } else {
        let r = find_key(entries.drop_first(), k);
        if r < 0 {
            -1
        } else {
            r + 1
        }
    }
}

/// The mapping denoted by a sequence of object entries.
pub open spec fn obj_lookup(entries: Seq<(Seq<char>, SpecValue)>, k: Seq<char>) -> Option<
    SpecValue,
> {
    let j = find_key(entries, k);
    if j >= 0 {
        Some(entries[j].1)
    } else {
        None
    }
}

/// `find_key` returns the index of the first entry with key `k`, and `-1`
/// exactly when no entry has that key.
pub proof fn lemma_find_key(entries: Seq<(Seq<char>, SpecValue)>, k: Seq<char>)
    ensures
        find_key(entries, k) == -1 <==> (forall|j: int|
            0 <= j < entries.len() ==> entries[j].0 != k),
        find_key(entries, k) != -1 ==> {
            &&& 0 <= find_key(entries, k) < entries.len()
            &&& entries[find_key(entries, k)].0 == k
            &&& forall|j: int| 0 <= j < find_key(entries, k) ==> entries[j].0 != k
        },
    decreases entries.len(),
{
    if entries.len() > 0 && entries[0].0 != k {
        lemma_find_key(entries.drop_first(), k);
        assert forall|j: int| 1 <= j < entries.len() implies entries.drop_first()[j - 1]
            == entries[j] by {}
    }
}

/// Inserts `(k, v)` into a sequence of object entries last-write-wins:
/// an existing entry with key `k` is replaced in place, otherwise the new
/// entry is appended.
pub open spec fn spec_upsert(
    entries: Seq<(Seq<char>, SpecValue)>,
    k: Seq<char>,
    v: SpecValue,
) -> Seq<(Seq<char>, SpecValue)> {
    let j = find_key(entries, k);
    if j >= 0 {
        entries.update(j, (k, v))
    } else {
        entries.push((k, v))
    }
}

/// When the first `i` entries miss `k` and entry `i` holds it, `find_key`
/// returns `i`.
pub proof fn lemma_find_key_first(entries: Seq<(Seq<char>, SpecValue)>, k: Seq<char>, i: int)
    requires
        0 <= i < entries.len(),
        entries[i].0 == k,
        forall|j: int| 0 <= j < i ==> entries[j].0 != k,
    ensures
        find_key(entries, k) == i,
    decreases i,
{
    if i > 0 {
        lemma_find_key_first(entries.drop_first(), k, i - 1);
    }
}

/// Unique keys: no two entries share a key.
pub open spec fn unique_keys(entries: Seq<(Seq<char>, SpecValue)>) -> bool {
    forall|i: int, j: int|
        0 <= i < j < entries.len() ==> (#[trigger] entries[i]).0 != (#[trigger] entries[j]).0
}

/// Well-formedness of a model tree: every object in it, at every nesting
/// level, has unique keys.
pub open spec fn wf_value(v: SpecValue) -> bool
    decreases v,
{
    match v {
        SpecValue::Arr(s) => wf_elems(s),
        SpecValue::Obj(e) => unique_keys(e) && wf_entries(e),
        _ => true,
    }
}

/// Well-formedness of a sequence of array elements.
pub open spec fn wf_elems(s: Seq<SpecValue>) -> bool
    decreases s,
{
    forall|i: int| 0 <= i < s.len() ==> wf_value(#[trigger] s[i])
}

/// Well-formedness of the values of a sequence of object entries.
pub open spec fn wf_entries(e: Seq<(Seq<char>, SpecValue)>) -> bool
    decreases e,
{
    forall|i: int| 0 <= i < e.len() ==> wf_value((#[trigger] e[i]).1)
}

/// Containers in `v` nest at most `d` levels deep.
pub open spec fn depth_le(v: SpecValue, d: nat) -> bool
    decreases v,
{
    match v {
        SpecValue::Arr(s) => d >= 1 && elems_depth_le(s, (d - 1) as nat),
        SpecValue::Obj(e) => d >= 1 && entries_depth_le(e, (d - 1) as nat),
        _ => true,
    }
}

/// Every element of `s` nests at most `d` levels deep.
pub open spec fn elems_depth_le(s: Seq<SpecValue>, d: nat) -> bool
    decreases s,
{
    forall|i: int| 0 <= i < s.len() ==> depth_le(#[trigger] s[i], d)
}

/// Every entry value of `e` nests at most `d` levels deep.
pub open spec fn entries_depth_le(e: Seq<(Seq<char>, SpecValue)>, d: nat) -> bool
    decreases e,
{
    forall|i: int| 0 <= i < e.len() ==> depth_le((#[trigger] e[i]).1, d)
}

/// `spec_upsert` keeps the nesting bound of a sequence of object entries.
pub proof fn lemma_upsert_preserves_depth(
    entries: Seq<(Seq<char>, SpecValue)>,
    k: Seq<char>,
    v: SpecValue,
    d: nat,
)
    requires
        entries_depth_le(entries, d),
        depth_le(v, d),
    ensures
        entries_depth_le(spec_upsert(entries, k, v), d),
{
    let u = spec_upsert(entries, k, v);
    let j = find_key(entries, k);
    lemma_find_key(entries, k);
    assert forall|i: int| 0 <= i < u.len() implies depth_le((#[trigger] u[i]).1, d) by {
        if j >= 0 {
            if i != j {
                assert(u[i] == entries[i]);
            }
        } else {
            if i < entries.len() {
                assert(u[i] == entries[i]);
            }
        }
    }
}

/// `spec_upsert` keeps object entries well formed: keys stay unique and
/// every stored value stays well formed.
pub proof fn lemma_upsert_preserves_wf(
    entries: Seq<(Seq<char>, SpecValue)>,
    k: Seq<char>,
    v: SpecValue,
)
    requires
        unique_keys(entries),
        wf_entries(entries),
        wf_value(v),
    ensures
        unique_keys(spec_upsert(entries, k, v)),
        wf_entries(spec_upsert(entries, k, v)),
{
    let u = spec_upsert(entries, k, v);
    let j = find_key(entries, k);
    lemma_find_key(entries, k);
    if j >= 0 {
        assert(forall|i: int| 0 <= i < u.len() ==> (#[trigger] u[i]).0 == entries[i].0);
        assert forall|i: int| 0 <= i < u.len() implies wf_value((#[trigger] u[i]).1) by {
            if i != j {
                assert(u[i] == entries[i]);
            }
        }
    } else {
        assert forall|i: int, j2: int| 0 <= i < j2 < u.len() implies (#[trigger] u[i]).0 != (
        #[trigger] u[j2]).0 by {
            if j2 < entries.len() {
                assert(u[i] == entries[i] && u[j2] == entries[j2]);
            } else {
                assert(u[i] == entries[i] && u[j2].0 == k);
            }
        }
        assert forall|i: int| 0 <= i < u.len() implies wf_value((#[trigger] u[i]).1) by {
            if i < entries.len() {
                assert(u[i] == entries[i]);
            }
        }
    }
}

/// Last-write-wins: after inserting `(k, v)` into a sequence of object
/// entries, looking up `k` yields `v`, and looking up any other key yields
/// what it yielded before.
pub proof fn lemma_upsert_last_wins(
    entries: Seq<(Seq<char>, SpecValue)>,
    k: Seq<char>,
    v: SpecValue,
    k2: Seq<char>,
)
    ensures
        obj_lookup(spec_upsert(entries, k, v), k) == Some(v),
        k2 != k ==> obj_lookup(spec_upsert(entries, k, v), k2) == obj_lookup(entries, k2),
{
    let u = spec_upsert(entries, k, v);
    let j = find_key(entries, k);
    lemma_find_key(entries, k);
    if j >= 0 {
        assert(forall|i: int| 0 <= i < u.len() ==> u[i].0 == entries[i].0);
        lemma_find_key_first(u, k, j);
        if k2 != k {
            let j2 = find_key(entries, k2);
            lemma_find_key(entries, k2);
            lemma_find_key(u, k2);
            if j2 >= 0 {
                lemma_find_key_first(u, k2, j2);
            }
        }
    } else {
        lemma_find_key_first(u, k, entries.len() as int);
        if k2 != k {
            let j2 = find_key(entries, k2);
            lemma_find_key(entries, k2);
            lemma_find_key(u, k2);
            if j2 >= 0 {
                lemma_find_key_first(u, k2, j2);
            }
        }
    }
}

impl Value {
    /// The ghost model of this tree.
    pub open spec fn deep(self) -> SpecValue
        decreases self,
    {
        match self {
            Value::Null => SpecValue::Null,
            Value::Boolean(b) => SpecValue::Bool(b),
            Value::Number(n) => SpecValue::Num(n),
            Value::String(s) => SpecValue::Str(s@),
            Value::Array(a) => SpecValue::Arr(seq_deep(a@)),
            Value::Object(m) => SpecValue::Obj(entries_deep(m@)),
        }
    }
}

impl View for Value {
    type V = SpecValue;

    open spec fn view(&self) -> SpecValue {
        self.deep()
    }
}

impl Value {
    /// Whether this value is `Null`.
    pub fn is_null(&self) -> (r: bool)
        ensures
            r == (self@ matches SpecValue::Null),
    {
        match *self {
            Value::Null => true,
            _ => false,
        }
    }

    /// The boolean held by a `Boolean` value, and `None` for every other variant.
    pub fn as_boolean(&self) -> (r: Option<bool>)
        ensures
            match r {
                Some(b) => self@ == SpecValue::Bool(b),
                None => !(self@ matches SpecValue::Bool(_)),
            },
    {
        match *self {
            Value::Boolean(b) => Some(b),
            _ => None,
        }
    }

    /// Whether this value is a `Boolean`.
    pub fn is_boolean(&self) -> (r: bool)
        ensures
            r == (self@ matches SpecValue::Bool(_)),
    {
        match *self {
            Value::Boolean(_) => true,
            _ => false,
        }
    }

    /// The number held by a `Number` value, and `None` for every other variant.
    pub fn as_number(&self) -> (r: Option<&Number>)
        ensures
            match r {
                Some(n) => self@ == SpecValue::Num(*n),
                None => !(self@ matches SpecValue::Num(_)),
            },
    {
        match self {
            Value::Number(n) => Some(n),
            _ => None,
        }
    }

    /// Whether this value is a `Number`.
    pub fn is_number(&self) -> (r: bool)
        ensures
            r == (self@ matches SpecValue::Num(_)),
    {
        match *self {
            Value::Number(_) => true,
            _ => false,
        }
    }

    /// The text held by a `String` value, and `None` for every other variant.
    pub fn as_str(&self) -> (r: Option<&str>)
        ensures
            match r {
                Some(s) => self@ == SpecValue::Str(s@),
                None => !(self@ matches SpecValue::Str(_)),
            },
    {
        match self {
            Value::String(s) => Some(s.as_str()),
            _ => None,
        }
    }

    /// Whether this value is a `String`.
    pub fn is_string(&self) -> (r: bool)
        ensures
            r == (self@ matches SpecValue::Str(_)),
    {
        match *self {
            Value::String(_) => true,
            _ => false,
        }
    }

    /// The elements of an `Array` value, and `None` for every other variant.
    pub fn as_array(&self) -> (r: Option<&Vec<Value>>)
        ensures
            match r {
                Some(a) => self@ == SpecValue::Arr(seq_deep(a@)),
                None => !(self@ matches SpecValue::Arr(_)),
            },
    {
        match self {
            Value::Array(a) => Some(a),
            _ => None,
        }
    }

    /// Whether this value is an `Array`.
    pub fn is_array(&self) -> (r: bool)
        ensures
            r == (self@ matches SpecValue::Arr(_)),
    {
        match *self {
            Value::Array(_) => true,
            _ => false,
        }
    }

    /// The entries of an `Object` value, and `None` for every other variant.
    pub fn as_object(&self) -> (r: Option<&Vec<(String, Value)>>)
        ensures
            match r {
                Some(m) => self@ == SpecValue::Obj(entries_deep(m@)),
                None => !(self@ matches SpecValue::Obj(_)),
            },
    {
        match self {
            Value::Object(m) => Some(m),
            _ => None,
        }
    }

    /// Whether this value is an `Object`.
    pub fn is_object(&self) -> (r: bool)
        ensures
            r == (self@ matches SpecValue::Obj(_)),
    {
        match *self {
            Value::Object(_) => true,
            _ => false,
        }
    }
}

} // verus!
