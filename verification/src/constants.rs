//! The lowerer's table of compile-time constants, in which each value has
//! one canonical index.

use vstd::prelude::*;
use vstd::std_specs::cmp::PartialEqSpecImpl;

verus! {

/// A compile-time constant value. A float is held as the bit pattern of its
/// IEEE 754 single-precision encoding.
#[derive(Debug, Clone)]
pub enum Value {
    Null,
    Boolean(bool),
    Int(i64),
    Float(u32),
    String(String),
}

/// The single-precision float with bit pattern `bits` is a NaN.
pub open spec fn float_bits_is_nan(bits: u32) -> bool {
    (bits & 0x7f80_0000u32) == 0x7f80_0000u32 && (bits & 0x007f_ffffu32) != 0u32
}

/// IEEE 754 equality of two single-precision floats given by their bit
/// patterns: no NaN equals anything, and positive and negative zero are equal.
pub open spec fn float_bits_eq(a: u32, b: u32) -> bool {
    &&& !float_bits_is_nan(a)
    &&& !float_bits_is_nan(b)
    &&& (a == b || ((a & 0x7fff_ffffu32) == 0u32 && (b & 0x7fff_ffffu32) == 0u32))
}

fn exec_float_bits_eq(a: u32, b: u32) -> (r: bool)
    ensures
        r == float_bits_eq(a, b),
{
    let a_nan = (a & 0x7f80_0000u32) == 0x7f80_0000u32 && (a & 0x007f_ffffu32) != 0u32;
    let b_nan = (b & 0x7f80_0000u32) == 0x7f80_0000u32 && (b & 0x007f_ffffu32) != 0u32;
    !a_nan && !b_nan && (a == b || ((a & 0x7fff_ffffu32) == 0u32 && (b & 0x7fff_ffffu32) == 0u32))
}

impl Value {
    /// Equality of constants: same kind and equal contents, floats compared
    /// as IEEE 754 numbers.
    pub open spec fn same_value(&self, other: &Value) -> bool {
        match (self, other) {
            (Value::Null, Value::Null) => true,
            (Value::Boolean(a), Value::Boolean(b)) => a == b,
            (Value::Int(a), Value::Int(b)) => a == b,
            (Value::Float(a), Value::Float(b)) => float_bits_eq(*a, *b),
            (Value::String(a), Value::String(b)) => a@ == b@,
            _ => false,
        }
    }

    /// A float constant whose value is NaN.
    pub open spec fn is_nan(&self) -> bool {
        self matches Value::Float(bits) && float_bits_is_nan(*bits)
    }
}

impl PartialEq for Value {
    fn eq(&self, other: &Value) -> (r: bool) {
        match self {
            Value::Null => match other {
                Value::Null => true,
                _ => false,
            },
            Value::Boolean(a) => match other {
                Value::Boolean(b) => *a == *b,
                _ => false,
            },
            Value::Int(a) => match other {
                Value::Int(b) => *a == *b,
                _ => false,
            },
            Value::Float(a) => match other {
                Value::Float(b) => exec_float_bits_eq(*a, *b),
                _ => false,
            },
            Value::String(a) => match other {
                Value::String(b) => {
                    let r = a.eq(b);
                    assert(r == (a@ == b@));
                    r
                },
                _ => false,
            },
        }
    }
}

impl PartialEqSpecImpl for Value {
    open spec fn obeys_eq_spec() -> bool {
        true
    }

    open spec fn eq_spec(&self, other: &Value) -> bool {
        self.same_value(other)
    }
}

/// `i` is the first index of `table` that holds a value equal to `value`.
pub open spec fn is_first_equal(table: Seq<Value>, value: Value, i: int) -> bool {
    &&& 0 <= i < table.len()
    &&& table[i].same_value(&value)
    &&& forall|j: int| 0 <= j < i ==> !(#[trigger] table[j]).same_value(&value)
}

/// Some entry of `table` equals `value`.
pub open spec fn holds_equal(table: Seq<Value>, value: Value) -> bool {
    exists|i: int| 0 <= i < table.len() && (#[trigger] table[i]).same_value(&value)
}

/// No two entries of `table` are equal values.
pub open spec fn all_distinct(table: Seq<Value>) -> bool {
    forall|i: int, j: int|
        #![trigger table[i], table[j]]
        0 <= i < j < table.len() ==> !table[i].same_value(&table[j])
}

/// The table and the index that adding `value` to `table` gives: the first
/// equal entry's index and the table unchanged when there is one, else
/// `value` appended and its new index.
pub open spec fn add_constant_result(table: Seq<Value>, value: Value) -> (Seq<Value>, int) {
    if holds_equal(table, value) {
        (table, choose|i: int| is_first_equal(table, value, i))
    } else {
        (table.push(value), table.len() as int)
    }
}

/// When some entry equals `value`, exactly one index is the first of them.
proof fn lemma_first_equal_exists_unique(table: Seq<Value>, value: Value)
    requires
        holds_equal(table, value),
    ensures
        is_first_equal(table, value, choose|i: int| is_first_equal(table, value, i)),
        forall|i: int, k: int|
            is_first_equal(table, value, i) && is_first_equal(table, value, k) ==> i == k,
{
    let w = choose|i: int| 0 <= i < table.len() && (#[trigger] table[i]).same_value(&value);
    lemma_first_equal_below(table, value, w);
}

/// Below any index holding an equal value lies a first one.
proof fn lemma_first_equal_below(table: Seq<Value>, value: Value, w: int)
    requires
        0 <= w < table.len(),
        table[w].same_value(&value),
    ensures
        exists|i: int| is_first_equal(table, value, i),
    decreases w,
{
    if exists|j: int| 0 <= j < w && (#[trigger] table[j]).same_value(&value) {
        let j = choose|j: int| 0 <= j < w && (#[trigger] table[j]).same_value(&value);
        lemma_first_equal_below(table, value, j);
    } else {
        assert(is_first_equal(table, value, w));
    }
}

/// Every value but a NaN float equals itself.
pub proof fn lemma_same_value_reflexive(value: Value)
    requires
        !value.is_nan(),
    ensures
        value.same_value(&value),
{
}

/// Adding a constant keeps the entries already in the table where they are,
/// and appends at most the new value.
pub proof fn lemma_add_constant_only_appends(table: Seq<Value>, value: Value)
    ensures
        add_constant_result(table, value).0 == table || add_constant_result(table, value).0
            == table.push(value),
        0 <= add_constant_result(table, value).1 < add_constant_result(table, value).0.len(),
{
    if holds_equal(table, value) {
        lemma_first_equal_exists_unique(table, value);
    }
}

/// A table in which no two entries are equal stays so when a constant is added.
pub proof fn lemma_add_constant_keeps_distinct(table: Seq<Value>, value: Value)
    requires
        all_distinct(table),
    ensures
        all_distinct(add_constant_result(table, value).0),
{
    if !holds_equal(table, value) {
        let t = table.push(value);
        assert forall|i: int, j: int|
            #![trigger t[i], t[j]]
            0 <= i < j < t.len() implies !t[i].same_value(&t[j]) by {
            if j == table.len() {
                assert(t[i] == table[i]);
            } else {
                assert(t[i] == table[i] && t[j] == table[j]);
            }
        }
    }
}

/// The index returned for a value other than NaN holds a value equal to it.
pub proof fn lemma_add_constant_index_holds_value(table: Seq<Value>, value: Value)
    requires
        !value.is_nan(),
    ensures
        ({
            let (t, i) = add_constant_result(table, value);
            0 <= i < t.len() && t[i].same_value(&value)
        }),
{
    if holds_equal(table, value) {
        lemma_first_equal_exists_unique(table, value);
    } else {
        lemma_same_value_reflexive(value);
    }
}

/// Adding a value other than NaN a second time returns the index of the
/// first time and leaves the table as it was.
pub proof fn lemma_add_constant_twice(table: Seq<Value>, value: Value)
    requires
        !value.is_nan(),
    ensures
        add_constant_result(add_constant_result(table, value).0, value) == add_constant_result(
            table,
            value,
        ),
{
    let (t1, i1) = add_constant_result(table, value);
    lemma_add_constant_index_holds_value(table, value);
    assert(holds_equal(t1, value)) by {
        assert(t1[i1].same_value(&value));
    }
    lemma_first_equal_exists_unique(t1, value);
    if holds_equal(table, value) {
        lemma_first_equal_exists_unique(table, value);
    } else {
        assert(is_first_equal(t1, value, i1)) by {
            assert forall|j: int| 0 <= j < i1 implies !(#[trigger] t1[j]).same_value(&value) by {
                assert(t1[j] == table[j]);
            }
        }
    }
}

/// A NaN equals no entry, so adding it always appends a new entry.
pub proof fn lemma_add_constant_nan_appends(table: Seq<Value>, value: Value)
    requires
        value.is_nan(),
    ensures
        add_constant_result(table, value) == (table.push(value), table.len() as int),
{
}

/// The entry at the index returned for a constant is that constant: same
/// kind and same contents, a float equal as an IEEE 754 number (the same
/// bits, or both a zero of either sign). So two constants share an index
/// only when they are the same value.
pub proof fn lemma_add_constant_returns_that_constant(table: Seq<Value>, value: Value)
    ensures
        ({
            let (t, i) = add_constant_result(table, value);
            &&& 0 <= i < t.len()
            &&& match value {
                Value::Null => t[i] is Null,
                Value::Boolean(b) => t[i] == Value::Boolean(b),
                Value::Int(n) => t[i] == Value::Int(n),
                Value::String(x) => t[i] matches Value::String(y) && y@ == x@,
                Value::Float(bits) => t[i] matches Value::Float(c) && (c == bits || ((c
                    & 0x7fff_ffffu32) == 0u32 && (bits & 0x7fff_ffffu32) == 0u32)),
            }
        }),
{
    if value.is_nan() {
        lemma_add_constant_nan_appends(table, value);
    } else {
        lemma_add_constant_index_holds_value(table, value);
        let (t, i) = add_constant_result(table, value);
        match t[i] {
            Value::Null => {},
            Value::Boolean(_) => {},
            Value::Int(_) => {},
            Value::String(_) => {},
            Value::Float(_) => {},
        }
    }
}

/// The lowerer's constant table.
pub struct ConstantTable {
    pub constants: Vec<Value>,
}

impl ConstantTable {
    /// An empty table.
    pub fn new() -> (table: ConstantTable)
        ensures
            table.constants@ == Seq::<Value>::empty(),
    {
        ConstantTable { constants: Vec::new() }
    }

    /// Add a constant to the constants table and return its index.
    /// Returns the existing index if an equal value is already present.
    pub fn add_constant(&mut self, value: Value) -> (index: usize)
        ensures
            (final(self).constants@, index as int) == add_constant_result(
                old(self).constants@,
                value,
            ),
    {
        let n = self.constants.len();
        let mut i: usize = 0;
        while i < n
            invariant
                n == self.constants@.len(),
                i <= n,
                self.constants@ == old(self).constants@,
                forall|j: int| 0 <= j < i ==> !(#[trigger] self.constants@[j]).same_value(&value),
            decreases n - i,
        {
            if self.constants[i] == value {
                proof {
                    lemma_first_equal_exists_unique(self.constants@, value);
                    assert(is_first_equal(self.constants@, value, i as int));
                }
                return i;
            }
            i = i + 1;
        }
        self.constants.push(value);
        n
    }
}

} // verus!
