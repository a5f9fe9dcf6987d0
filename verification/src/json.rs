//! JSON values, and the matching of one value against another.
//!
//! A listener names the tags it cares about as a JSON value; a message reaches it when that
//! value is contained in the tags the message bears.

use vstd::prelude::*;

use crate::text::same_text;

verus! {

/// A JSON number. A number with a fraction or an exponent is kept as the bits of its
/// double-precision value, with zero always kept as positive zero, so that two such numbers
/// are equal exactly when their bits are.
#[derive(Clone, Copy, Debug, PartialEq, Eq, Structural)]
pub enum Number {
    /// A whole number that is not negative.
    PosInt(u64),
    /// A negative whole number.
    NegInt(i64),
    /// Any other number.
    Float(u64),
}

/// A JSON value. An object is a list of entries, each a key and the value under it; its keys
/// are all different.
#[derive(Debug)]
pub enum Value {
    Null,
    Bool(bool),
    Number(Number),
    String(String),
    Array(Vec<Value>),
    Object(Vec<(String, Value)>),
}

/// The value that the first entry named `key` holds, if the object has such an entry.
pub open spec fn spec_member(members: Seq<(String, Value)>, key: Seq<char>) -> Option<Value>
    decreases members.len(),
{
    if members.len() == 0 {
        None
    } else if members[0].0@ == key {
        Some(members[0].1)
    } else {
        spec_member(members.skip(1), key)
    }
}

/// Whether two values are the same JSON: the same scalar, arrays of the same values in the
/// same order, or objects with the same keys and the same value under each key.
pub open spec fn spec_same(a: Value, b: Value) -> bool
    decreases a,
{
    match (a, b) {
        (Value::Null, Value::Null) => true,
        (Value::Bool(x), Value::Bool(y)) => x == y,
        (Value::Number(x), Value::Number(y)) => x == y,
        (Value::String(x), Value::String(y)) => x@ == y@,
        (Value::Array(x), Value::Array(y)) => x@.len() == y@.len() && forall|i: int|
            0 <= i < x@.len() ==> spec_same(#[trigger] x@[i], y@[i]),
        (Value::Object(x), Value::Object(y)) => x@.len() == y@.len() && forall|i: int|
            0 <= i < x@.len() ==> match spec_member(y@, (#[trigger] x@[i]).0@) {
                Some(other) => spec_same(x@[i].1, other),
                None => false,
            },
        _ => false,
    }
}

/// Whether `subset` is contained in `superset`. An object is contained in an object that has
/// all its keys, with a value under each that contains its own. An array is contained in an
/// array whose items contain its own, place by place, as far as both reach. Anything else is
/// contained only in what it is the same as.
pub open spec fn spec_value_subset(subset: Value, superset: Value) -> bool
    decreases subset,
{
    match (subset, superset) {
        (Value::Object(x), Value::Object(y)) => forall|i: int|
            0 <= i < x@.len() ==> match spec_member(y@, (#[trigger] x@[i]).0@) {
                Some(other) => spec_value_subset(x@[i].1, other),
                None => false,
            },
        (Value::Array(x), Value::Array(y)) => forall|i: int|
            0 <= i < x@.len() && i < y@.len() ==> spec_value_subset(#[trigger] x@[i], y@[i]),
        _ => spec_same(subset, superset),
    }
}

/// Where a key first occurs decides its entry: entries before it that bear another key do
/// not count.
proof fn lemma_member_skips(members: Seq<(String, Value)>, key: Seq<char>, k: int)
    requires
        0 <= k <= members.len(),
        forall|j: int| 0 <= j < k ==> (#[trigger] members[j]).0@ != key,
    ensures
        spec_member(members, key) == spec_member(members.skip(k), key),
    decreases k,
{
    if k == 0 {
        assert(members.skip(0) == members);
    } else {
        lemma_member_skips(members, key, k - 1);
        let rest = members.skip(k - 1);
        assert(rest[0] == members[k - 1]);
        assert(rest.skip(1) == members.skip(k));
    }
}

/// Whether the keys of an object are all different.
pub open spec fn keys_distinct(members: Seq<(String, Value)>) -> bool {
    forall|i: int, j: int|
        0 <= i < members.len() && 0 <= j < members.len() && i != j ==> (#[trigger] members[i]).0@
            != (#[trigger] members[j]).0@
}

/// A value is well formed when no object in it, at any depth, has two entries under one key.
pub open spec fn wf_value(value: Value) -> bool
    decreases value,
{
    match value {
        Value::Array(items) => forall|i: int|
            0 <= i < items@.len() ==> wf_value(#[trigger] items@[i]),
        Value::Object(members) => keys_distinct(members@) && forall|i: int|
            0 <= i < members@.len() ==> wf_value((#[trigger] members@[i]).1),
        _ => true,
    }
}

/// In an object whose keys are all different, each key leads to its own entry.
proof fn lemma_member_of_own_key(members: Seq<(String, Value)>, i: int)
    requires
        keys_distinct(members),
        0 <= i < members.len(),
    ensures
        spec_member(members, members[i].0@) == Some(members[i].1),
{
    lemma_member_skips(members, members[i].0@, i);
    assert(members.skip(i)[0] == members[i]);
}

/// Every well-formed value is the same as itself.
pub proof fn lemma_same_as_itself(value: Value)
    requires
        wf_value(value),
    ensures
        spec_same(value, value),
    decreases value,
{
    match value {
        Value::Array(items) => {
            assert forall|i: int| 0 <= i < items@.len() implies spec_same(
                #[trigger] items@[i],
                items@[i],
            ) by {
                assert(decreases_to!(value => value->Array_0));
                assert(decreases_to!(items => items@));
                assert(decreases_to!(items@ => items@[i]));
                lemma_same_as_itself(items@[i]);
            }
        },
        Value::Object(members) => {
            assert forall|i: int| 0 <= i < members@.len() implies match spec_member(
                members@,
                (#[trigger] members@[i]).0@,
            ) {
                Some(other) => spec_same(members@[i].1, other),
                None => false,
            } by {
                assert(decreases_to!(value => value->Object_0));
                assert(decreases_to!(members => members@));
                assert(decreases_to!(members@ => members@[i]));
                assert(decreases_to!(members@[i] => members@[i].1));
                lemma_member_of_own_key(members@, i);
                lemma_same_as_itself(members@[i].1);
            }
        },
        _ => {},
    }
}

/// What is the same is contained: a value is contained in every value that it is the same
/// as.
pub proof fn lemma_same_is_contained(a: Value, b: Value)
    requires
        spec_same(a, b),
    ensures
        spec_value_subset(a, b),
    decreases a,
{
    match (a, b) {
        (Value::Array(x), Value::Array(y)) => {
            assert forall|i: int| 0 <= i < x@.len() && i < y@.len() implies spec_value_subset(
                #[trigger] x@[i],
                y@[i],
            ) by {
                assert(decreases_to!(a => a->Array_0));
                assert(decreases_to!(x => x@));
                assert(decreases_to!(x@ => x@[i]));
                lemma_same_is_contained(x@[i], y@[i]);
            }
        },
        (Value::Object(x), Value::Object(y)) => {
            assert forall|i: int| 0 <= i < x@.len() implies match spec_member(
                y@,
                (#[trigger] x@[i]).0@,
            ) {
                Some(other) => spec_value_subset(x@[i].1, other),
                None => false,
            } by {
                assert(decreases_to!(a => a->Object_0));
                assert(decreases_to!(x => x@));
                assert(decreases_to!(x@ => x@[i]));
                assert(decreases_to!(x@[i] => x@[i].1));
                let other = spec_member(y@, x@[i].0@)->0;
                lemma_same_is_contained(x@[i].1, other);
            }
        },
        _ => {},
    }
}

/// Every well-formed value is contained in itself.
pub proof fn lemma_contained_in_itself(value: Value)
    requires
        wf_value(value),
    ensures
        spec_value_subset(value, value),
{
    lemma_same_as_itself(value);
    lemma_same_is_contained(value, value);
}

/// Looks an entry of an object up by its key.
pub fn member<'a>(members: &'a Vec<(String, Value)>, key: &str) -> (value: Option<&'a Value>)
    ensures
        match value {
            Some(v) => spec_member(members@, key@) == Some(*v),
            None => spec_member(members@, key@) is None,
        },
{
    let mut i: usize = 0;
    while i < members.len()
        invariant
            i <= members.len(),
            forall|j: int| 0 <= j < i ==> (#[trigger] members@[j]).0@ != key@,
        decreases members.len() - i,
    {
        if same_text(members[i].0.as_str(), key) {
            proof {
                lemma_member_skips(members@, key@, i as int);
                assert(members@.skip(i as int)[0] == members@[i as int]);
            }
            return Some(&members[i].1);
        }
        i += 1;
    }
    proof {
        lemma_member_skips(members@, key@, members.len() as int);
    }
    None
}

/// Whether two values are the same JSON.
pub fn same_value(a: &Value, b: &Value) -> (same: bool)
    ensures
        same == spec_same(*a, *b),
    decreases a,
{
    match (a, b) {
        (Value::Null, Value::Null) => true,
        (Value::Bool(x), Value::Bool(y)) => *x == *y,
        (Value::Number(x), Value::Number(y)) => *x == *y,
        (Value::String(x), Value::String(y)) => same_text(x.as_str(), y.as_str()),
        (Value::Array(x), Value::Array(y)) => {
            if x.len() != y.len() {
                return false;
            }
            let mut i: usize = 0;
            while i < x.len()
                invariant
                    i <= x.len(),
                    x.len() == y.len(),
                    *a == Value::Array(*x),
                    *b == Value::Array(*y),
                    forall|j: int| 0 <= j < i ==> spec_same(#[trigger] x@[j], y@[j]),
                decreases x.len() - i,
            {
                proof {
                    assert(decreases_to!(*a => a->Array_0));
                    assert(decreases_to!(*x => x@));
                    assert(decreases_to!(x@ => x@[i as int]));
                }
                if !same_value(&x[i], &y[i]) {
                    return false;
                }
                i += 1;
            }
            true
        },
        (Value::Object(x), Value::Object(y)) => {
            if x.len() != y.len() {
                return false;
            }
            let mut i: usize = 0;
            while i < x.len()
                invariant
                    i <= x.len(),
                    x.len() == y.len(),
                    *a == Value::Object(*x),
                    *b == Value::Object(*y),
                    forall|j: int|
                        0 <= j < i ==> match spec_member(y@, (#[trigger] x@[j]).0@) {
                            Some(other) => spec_same(x@[j].1, other),
                            None => false,
                        },
                decreases x.len() - i,
            {
                proof {
                    assert(decreases_to!(*a => a->Object_0));
                    assert(decreases_to!(*x => x@));
                    assert(decreases_to!(x@ => x@[i as int]));
                    assert(decreases_to!(x@[i as int] => x@[i as int].1));
                }
                match member(y, x[i].0.as_str()) {
                    Some(other) => {
                        if !same_value(&x[i].1, other) {
                            return false;
                        }
                    },
                    None => {
                        return false;
                    },
                }
                i += 1;
            }
            true
        },
        _ => false,
    }
}

/// Returns true if `subset` is a subset of `superset`.
pub fn is_value_subset(subset: &Value, superset: &Value) -> (contained: bool)
    ensures
        contained == spec_value_subset(*subset, *superset),
    decreases subset,
{
    match (subset, superset) {
        (Value::Object(x), Value::Object(y)) => {
            let mut i: usize = 0;
            while i < x.len()
                invariant
                    i <= x.len(),
                    *subset == Value::Object(*x),
                    *superset == Value::Object(*y),
                    forall|j: int|
                        0 <= j < i ==> match spec_member(y@, (#[trigger] x@[j]).0@) {
                            Some(other) => spec_value_subset(x@[j].1, other),
                            None => false,
                        },
                decreases x.len() - i,
            {
                proof {
                    assert(decreases_to!(*subset => subset->Object_0));
                    assert(decreases_to!(*x => x@));
                    assert(decreases_to!(x@ => x@[i as int]));
                    assert(decreases_to!(x@[i as int] => x@[i as int].1));
                }
                match member(y, x[i].0.as_str()) {
                    Some(other) => {
                        if !is_value_subset(&x[i].1, other) {
                            return false;
                        }
                    },
                    None => {
                        return false;
                    },
                }
                i += 1;
            }
            true
        },
        (Value::Array(x), Value::Array(y)) => {
            let mut i: usize = 0;
            while i < x.len() && i < y.len()
                invariant
                    i <= x.len(),
                    i <= y.len(),
                    *subset == Value::Array(*x),
                    *superset == Value::Array(*y),
                    forall|j: int| 0 <= j < i ==> spec_value_subset(#[trigger] x@[j], y@[j]),
                decreases x.len() - i,
            {
                proof {
                    assert(decreases_to!(*subset => subset->Array_0));
                    assert(decreases_to!(*x => x@));
                    assert(decreases_to!(x@ => x@[i as int]));
                }
                if !is_value_subset(&x[i], &y[i]) {
                    return false;
                }
                i += 1;
            }
            true
        },
        _ => same_value(subset, superset),
    }
}

} // verus!
