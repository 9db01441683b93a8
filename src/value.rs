use vstd::prelude::*;

verus! {

broadcast use vstd::std_specs::vec::group_vec_axioms;

/// A value of the host pipeline: a closed recursive sum type, with one slot
/// for host values that do not decompose (images, messages, tensors, ...).
///
/// A `Number` travels as the IEEE-754 bit pattern of its 64-bit float, so
/// that the library moves it without doing arithmetic on it.
#[derive(Debug, PartialEq)]
pub enum Value {
    Unit,
    Boolean(bool),
    Integer(i64),
    Number(u64),
    String(String),
    Array(Vec<Value>),
    /// Entries of a string-keyed map; the keys are distinct and their order
    /// carries no meaning.
    Object(Vec<(String, Value)>),
    Opaque(agent_stream_kit::AgentValue),
}

#[verifier::external_type_specification]
#[verifier::external_body]
pub struct ExAgentValue(agent_stream_kit::AgentValue);

/// Relies on the derived `Clone` of `AgentValue`: the copy holds the same
/// variant with the same (shared or cloned) payload.
pub assume_specification[ <agent_stream_kit::AgentValue as Clone>::clone ](
    a: &agent_stream_kit::AgentValue,
) -> (r: agent_stream_kit::AgentValue)
    ensures
        r == *a,
;

/// The keys of an object's entries, in the order they are stored.
pub open spec fn keys_of<T>(entries: Seq<(String, T)>) -> Seq<Seq<char>> {
    entries.map_values(|e: (String, T)| e.0@)
}

/// No key occurs twice among the entries.
pub open spec fn keys_distinct<T>(entries: Seq<(String, T)>) -> bool {
    forall|i: int, j: int|
        0 <= i < entries.len() && 0 <= j < entries.len() && i != j
            ==> #[trigger] entries[i].0@ != #[trigger] entries[j].0@
}

/// Well-formedness: every object, at any depth, has distinct keys.
pub open spec fn wf(v: Value) -> bool
    decreases v,
{
    match v {
        Value::Array(items) => forall|i: int|
            0 <= i < items@.len() ==> wf(#[trigger] items@[i]),
        Value::Object(entries) => keys_distinct(entries@) && forall|i: int|
            0 <= i < entries@.len() ==> wf((#[trigger] entries@[i]).1),
        _ => true,
    }
}

/// Whether no key occurs twice among an object's entries.
pub fn keys_are_distinct(entries: &Vec<(String, Value)>) -> (r: bool)
    ensures
        r == keys_distinct(entries@),
{
    let mut i: usize = 0;
    while i < entries.len()
        invariant
            i <= entries@.len(),
            forall|a: int, b: int|
                0 <= a < i && 0 <= b < a ==> #[trigger] entries@[a].0@ != #[trigger] entries@[b].0@,
        decreases entries@.len() - i,
    {
        let mut j: usize = 0;
        while j < i
            invariant
                i < entries@.len(),
                j <= i,
                forall|a: int, b: int|
                    0 <= a < i && 0 <= b < a ==> #[trigger] entries@[a].0@ != #[trigger] entries@[b].0@,
                forall|b: int| 0 <= b < j ==> entries@[i as int].0@ != #[trigger] entries@[b].0@,
            decreases i - j,
        {
            if entries[i].0 == entries[j].0 {
                assert(entries@[i as int].0@ == entries@[j as int].0@);
                return false;
            }
            j = j + 1;
        }
        i = i + 1;
    }
    true
}

/// Whether a value is well-formed: every object in it, at any depth, has
/// distinct keys.
pub fn is_well_formed(v: &Value) -> (r: bool)
    ensures
        r == wf(*v),
    decreases v,
{
    proof {
        lemma_children_below(*v);
    }
    match v {
        Value::Array(items) => {
            let mut i: usize = 0;
            while i < items.len()
                invariant
                    i <= items@.len(),
                    *v == Value::Array(*items),
                    forall|j: int| 0 <= j < items@.len() ==> decreases_to!(*v => #[trigger] items@[j]),
                    forall|j: int| 0 <= j < i ==> wf(#[trigger] items@[j]),
                decreases items@.len() - i,
            {
                assert(decreases_to!(*v => items@[i as int]));
                if !is_well_formed(&items[i]) {
                    assert((*v)->Array_0@[i as int] == items@[i as int]);
                    return false;
                }
                i = i + 1;
            }
            true
        },
        Value::Object(entries) => {
            if !keys_are_distinct(entries) {
                return false;
            }
            let mut i: usize = 0;
            while i < entries.len()
                invariant
                    i <= entries@.len(),
                    *v == Value::Object(*entries),
                    keys_distinct(entries@),
                    forall|j: int|
                        0 <= j < entries@.len() ==> decreases_to!(*v => (#[trigger] entries@[j]).1),
                    forall|j: int| 0 <= j < i ==> wf((#[trigger] entries@[j]).1),
                decreases entries@.len() - i,
            {
                assert(decreases_to!(*v => entries@[i as int].1));
                if !is_well_formed(&entries[i].1) {
                    return false;
                }
                i = i + 1;
            }
            true
        },
        _ => true,
    }
}

/// Two values carry the same data: arrays element by element, objects with
/// the same keys and equivalent values under each key, whatever the order of
/// their entries.
pub open spec fn equivalent(a: Value, b: Value) -> bool
    decreases a,
{
    match (a, b) {
        (Value::Array(x), Value::Array(y)) => x@.len() == y@.len() && forall|i: int|
            0 <= i < x@.len() ==> equivalent(#[trigger] x@[i], y@[i]),
        (Value::Object(x), Value::Object(y)) => keys_of(x@).to_set() == keys_of(y@).to_set()
            && forall|i: int, j: int|
            0 <= i < x@.len() && 0 <= j < y@.len() && x@[i].0@ == y@[j].0@
                ==> equivalent((#[trigger] x@[i]).1, (#[trigger] y@[j]).1),
        (Value::String(x), Value::String(y)) => x@ == y@,
        _ => a == b,
    }
}


/// An array's element sits strictly below the array, so recursive
/// definitions over it unfold.
proof fn lemma_element_below(v: Value, i: int)
    requires
        v is Array,
        0 <= i < v->Array_0@.len(),
    ensures
        decreases_to!(v => v->Array_0@[i]),
{
    let items = v->Array_0;
    assert(decreases_to!(v => v->Array_0));
    assert(decreases_to!(items => items@));
    assert(decreases_to!(items@ => items@[i]));
}

/// Every element of an array, and every value of an object, sits strictly
/// below the value that holds it.
pub proof fn lemma_children_below(v: Value)
    ensures
        v is Array ==> forall|i: int|
            0 <= i < v->Array_0@.len() ==> decreases_to!(v => #[trigger] v->Array_0@[i]),
        v is Object ==> forall|i: int|
            0 <= i < v->Object_0@.len() ==> decreases_to!(v => #[trigger] v->Object_0@[i].1),
{
    if v is Array {
        assert forall|i: int| 0 <= i < v->Array_0@.len() implies decreases_to!(
            v => v->Array_0@[i]
        ) by {
            lemma_element_below(v, i);
        }
    }
    if v is Object {
        assert forall|i: int| 0 <= i < v->Object_0@.len() implies decreases_to!(
            v => v->Object_0@[i].1
        ) by {
            lemma_entry_below(v, i);
        }
    }
}

/// A value stored in an object sits strictly below the object.
proof fn lemma_entry_below(v: Value, i: int)
    requires
        v is Object,
        0 <= i < v->Object_0@.len(),
    ensures
        decreases_to!(v => v->Object_0@[i].1),
{
    let entries = v->Object_0;
    assert(decreases_to!(v => v->Object_0));
    assert(decreases_to!(entries => entries@));
    assert(decreases_to!(entries@ => entries@[i]));
    assert(decreases_to!(entries@[i] => entries@[i].1));
}

} // verus!
