use vstd::prelude::*;

use rhai::Dynamic;

use crate::native::{
    dict_keys, dyn_array, dyn_as_array, dyn_as_bool, dyn_as_float, dyn_as_foreign, dyn_as_int,
    dyn_as_map, dyn_as_str, dyn_bool, dyn_float, dyn_foreign, dyn_int, dyn_is_shared, dyn_is_unit,
    dyn_kind_name, dyn_map, dyn_str, dyn_unit, is_shared_of, kind_name_of, native_of, nesting_of,
    Native,
};
use crate::value::{equivalent, keys_distinct, keys_of, lemma_children_below, wf, Value};

verus! {

/// Why a Rhai value has no tagged counterpart.
#[derive(Debug, PartialEq)]
pub enum ConversionError {
    /// The script produced a kind of value the tagged model lacks; the text
    /// names it.
    UnsupportedNativeType(String),
    /// The value is a shared handle to a locked cell, whose content another
    /// handle may change; it is not read.
    SharedValue,
}

/// What a conversion failure says, over plain values.
pub enum Failure {
    Unsupported(Seq<char>),
    Shared,
}

/// The failure that a conversion error reports.
pub open spec fn failure_view(e: ConversionError) -> Failure {
    match e {
        ConversionError::UnsupportedNativeType(name) => Failure::Unsupported(name@),
        ConversionError::SharedValue => Failure::Shared,
    }
}

/// The values of a map's entries, in the order listed.
pub open spec fn dict_values(es: Seq<(Seq<char>, Dynamic)>) -> Seq<Dynamic> {
    es.map_values(|e: (Seq<char>, Dynamic)| e.1)
}

/// The first failure met when converting `d`: a shared handle, or a kind the
/// tagged model lacks; arrays and maps are searched element by element, in
/// their own order, depth first. `None` when nothing fails.
pub open spec fn failure_of(d: Dynamic) -> Option<Failure>
    decreases nesting_of(d), 1int, 0int,
{
    if is_shared_of(d) {
        Some(Failure::Shared)
    } else {
        match native_of(d) {
            Native::Other => Some(Failure::Unsupported(kind_name_of(d))),
            Native::Array(ds) => first_failure(d, ds, 0),
            Native::Dict(es) => first_failure(d, dict_values(es), 0),
            _ => None,
        }
    }
}

/// The first failure among the values `ds[i..]` held by `d`.
pub open spec fn first_failure(d: Dynamic, ds: Seq<Dynamic>, i: nat) -> Option<Failure>
    decreases nesting_of(d), 0int, ds.len() - i,
{
    if i >= ds.len() {
        None
    } else {
        let here = if nesting_of(ds[i as int]) < nesting_of(d) {
            failure_of(ds[i as int])
        } else {
            None
        };
        match here {
            Some(f) => Some(f),
            None => first_failure(d, ds, i + 1),
        }
    }
}

/// `d` holds exactly the data of `v`: the same primitive, arrays element by
/// element, maps key by key, and an opaque host value as itself; no part of
/// `d` is a shared handle.
pub open spec fn represents(d: Dynamic, v: Value) -> bool
    decreases v,
{
    !is_shared_of(d) && match v {
        Value::Unit => native_of(d) == Native::Unit,
        Value::Boolean(b) => native_of(d) == Native::Bool(b),
        Value::Integer(i) => native_of(d) == Native::Int(i),
        Value::Number(bits) => native_of(d) == Native::Float(bits),
        Value::String(s) => native_of(d) == Native::Str(s@),
        Value::Opaque(a) => native_of(d) == Native::Foreign(a),
        Value::Array(items) => match native_of(d) {
            Native::Array(ds) => ds.len() == items@.len() && forall|i: int|
                0 <= i < ds.len() ==> represents(ds[i], #[trigger] items@[i]),
            _ => false,
        },
        Value::Object(entries) => match native_of(d) {
            Native::Dict(es) => keys_distinct(entries@) && dict_keys(es).to_set() == keys_of(
                entries@,
            ).to_set() && forall|i: int, j: int|
                #![trigger entries@[i], es[j]]
                0 <= i < entries@.len() && 0 <= j < es.len() && es[j].0 == entries@[i].0@
                    ==> represents(es[j].1, entries@[i].1),
            _ => false,
        },
    }
}

/// Some tagged value is held by `d`, at every depth.
pub open spec fn convertible(d: Dynamic) -> bool {
    exists|v: Value| represents(d, v)
}

/// Converts a tagged value into a Rhai value holding the same data; this
/// never fails.
pub fn to_dynamic(v: &Value) -> (d: Dynamic)
    requires
        wf(*v),
    ensures
        represents(d, *v),
    decreases v,
{
    proof {
        lemma_children_below(*v);
    }
    match v {
        Value::Unit => dyn_unit(),
        Value::Boolean(b) => dyn_bool(*b),
        Value::Integer(i) => dyn_int(*i),
        Value::Number(bits) => dyn_float(*bits),
        Value::String(s) => dyn_str(s.clone()),
        Value::Opaque(a) => dyn_foreign(a.clone()),
        Value::Array(items) => {
            let mut out: Vec<Dynamic> = Vec::new();
            let mut i: usize = 0;
            while i < items.len()
                invariant
                    i <= items@.len(),
                    out@.len() == i,
                    wf(*v),
                    *v == Value::Array(*items),
                    forall|j: int|
                        0 <= j < items@.len() ==> decreases_to!(*v => #[trigger] items@[j]),
                    forall|j: int| 0 <= j < i ==> #[trigger] represents(out@[j], items@[j]),
                decreases items@.len() - i,
            {
                assert((*v)->Array_0@[i as int] == items@[i as int]);
                let d = to_dynamic(&items[i]);
                out.push(d);
                i = i + 1;
            }
            let ghost outs = out@;
            let d = dyn_array(out);
            assert forall|j: int| 0 <= j < outs.len() implies represents(
                outs[j],
                #[trigger] items@[j],
            ) by {
                assert(represents(outs[j], items@[j]));
            }
            assert(represents(d, *v));
            d
        },
        Value::Object(entries) => {
            let mut out: Vec<(String, Dynamic)> = Vec::new();
            let mut i: usize = 0;
            while i < entries.len()
                invariant
                    i <= entries@.len(),
                    out@.len() == i,
                    wf(*v),
                    *v == Value::Object(*entries),
                    forall|j: int|
                        0 <= j < entries@.len() ==> decreases_to!(
                            *v => (#[trigger] entries@[j]).1
                        ),
                    forall|j: int| 0 <= j < i ==> (#[trigger] out@[j]).0@ == entries@[j].0@,
                    forall|j: int| 0 <= j < i ==> represents(#[trigger] out@[j].1, entries@[j].1),
                decreases entries@.len() - i,
            {
                assert((*v)->Object_0@[i as int] == entries@[i as int]);
                let d = to_dynamic(&entries[i].1);
                out.push((entries[i].0.clone(), d));
                i = i + 1;
            }
            assert(keys_of(out@) =~= keys_of(entries@));
            let ghost outs = out@;
            let d = dyn_map(out);
            let ghost es = native_of(d)->Dict_0;
            assert forall|i: int, j: int|
                #![trigger entries@[i], es[j]]
                0 <= i < entries@.len() && 0 <= j < es.len() && es[j].0 == entries@[i].0@
                    implies represents(es[j].1, entries@[i].1) by {
                assert(outs[i].0@ == entries@[i].0@);
                assert(represents(outs[i].1, entries@[i].1));
            }
            assert(represents(d, *v));
            d
        },
    }
}

/// Converts a Rhai value back into a tagged value. It fails exactly when
/// some part of the value, at any depth, is a shared handle or has no tagged
/// counterpart, and then returns the first such failure met, depth first,
/// in each array's and map's own order.
pub fn from_dynamic(d: &Dynamic) -> (r: Result<Value, ConversionError>)
    ensures
        r is Ok <==> convertible(*d),
        r is Ok <==> failure_of(*d) is None,
        r is Ok ==> represents(*d, r->Ok_0),
        r is Err ==> failure_of(*d) == Some(failure_view(r->Err_0)),
    decreases nesting_of(*d),
{
    if dyn_is_shared(d) {
        return Err(ConversionError::SharedValue);
    }
    if dyn_is_unit(d) {
        assert(represents(*d, Value::Unit));
        return Ok(Value::Unit);
    }
    if let Some(b) = dyn_as_bool(d) {
        assert(represents(*d, Value::Boolean(b)));
        return Ok(Value::Boolean(b));
    }
    if let Some(i) = dyn_as_int(d) {
        assert(represents(*d, Value::Integer(i)));
        return Ok(Value::Integer(i));
    }
    if let Some(bits) = dyn_as_float(d) {
        assert(represents(*d, Value::Number(bits)));
        return Ok(Value::Number(bits));
    }
    if let Some(s) = dyn_as_str(d) {
        let r = Value::String(s);
        assert(represents(*d, r));
        return Ok(r);
    }
    if let Some(ds) = dyn_as_array(d) {
        let mut items: Vec<Value> = Vec::new();
        let mut i: usize = 0;
        while i < ds.len()
            invariant
                i <= ds@.len(),
                items@.len() == i,
                !is_shared_of(*d),
                native_of(*d) == Native::Array(ds@),
                failure_of(*d) == first_failure(*d, ds@, i as nat),
                forall|j: int| 0 <= j < ds@.len() ==> nesting_of(#[trigger] ds@[j]) < nesting_of(*d),
                forall|j: int| 0 <= j < i ==> #[trigger] represents(ds@[j], items@[j]),
            decreases ds@.len() - i,
        {
            match from_dynamic(&ds[i]) {
                Ok(x) => {
                    items.push(x);
                },
                Err(e) => {
                    assert forall|v: Value| !represents(*d, v) by {
                        lemma_children_below(v);
                        if represents(*d, v) {
                            if let Value::Array(xs) = v {
                                assert(represents(ds@[i as int], xs@[i as int]));
                            }
                        }
                    }
                    return Err(e);
                },
            }
            i = i + 1;
        }
        let ghost vs = items@;
        let r = Value::Array(items);
        proof {
            lemma_children_below(r);
            assert forall|j: int| 0 <= j < ds@.len() implies represents(
                ds@[j],
                #[trigger] vs[j],
            ) by {
                assert(represents(ds@[j], vs[j]));
            }
        }
        assert(represents(*d, r));
        return Ok(r);
    }
    if let Some(es) = dyn_as_map(d) {
        let ghost dict = native_of(*d)->Dict_0;
        assert(dict_values(dict).len() == es@.len());
        let mut entries: Vec<(String, Value)> = Vec::new();
        let mut i: usize = 0;
        while i < es.len()
            invariant
                i <= es@.len(),
                entries@.len() == i,
                !is_shared_of(*d),
                native_of(*d) == Native::Dict(dict),
                dict.len() == es@.len(),
                dict_values(dict).len() == es@.len(),
                keys_distinct(es@),
                forall|j: int|
                    0 <= j < es@.len() ==> (#[trigger] es@[j]).0@ == dict[j].0 && es@[j].1
                        == dict[j].1,
                forall|j: int|
                    0 <= j < es@.len() ==> nesting_of(#[trigger] es@[j].1) < nesting_of(*d),
                failure_of(*d) == first_failure(*d, dict_values(dict), i as nat),
                forall|j: int| 0 <= j < i ==> (#[trigger] entries@[j]).0@ == es@[j].0@,
                forall|j: int| 0 <= j < i ==> represents(es@[j].1, #[trigger] entries@[j].1),
            decreases es@.len() - i,
        {
            assert(dict_values(dict)[i as int] == es@[i as int].1);
            match from_dynamic(&es[i].1) {
                Ok(x) => {
                    entries.push((es[i].0.clone(), x));
                },
                Err(e) => {
                    assert forall|v: Value| !represents(*d, v) by {
                        lemma_children_below(v);
                        if represents(*d, v) {
                            if let Value::Object(xs) = v {
                                let k = dict[i as int].0;
                                assert(dict_keys(dict)[i as int] == k);
                                assert(dict_keys(dict).to_set().contains(k));
                                assert(keys_of(xs@).to_set().contains(k));
                                let j = keys_of(xs@).index_of(k);
                                assert(xs@[j].0@ == k);
                                assert(represents(dict[i as int].1, xs@[j].1));
                            }
                        }
                    }
                    return Err(e);
                },
            }
            i = i + 1;
        }
        assert(keys_of(entries@) =~= keys_of(es@));
        assert(dict_keys(dict) =~= keys_of(es@));
        let ghost ents = entries@;
        let r = Value::Object(entries);
        proof {
            lemma_children_below(r);
            assert forall|a: int, b: int|
                #![trigger ents[a], dict[b]]
                0 <= a < ents.len() && 0 <= b < dict.len() && dict[b].0 == ents[a].0@
                    implies represents(dict[b].1, ents[a].1) by {
                assert(es@[b].0@ == es@[a].0@);
                assert(represents(es@[a].1, ents[a].1));
            }
        }
        assert(represents(*d, r));
        return Ok(r);
    }
    if let Some(a) = dyn_as_foreign(d) {
        assert(represents(*d, Value::Opaque(a)));
        return Ok(Value::Opaque(a));
    }
    assert(native_of(*d) is Other);
    Err(ConversionError::UnsupportedNativeType(dyn_kind_name(d)))
}

} // verus!

verus! {

/// Converting back what was converted gives the same data: two tagged
/// values held by the same Rhai value are equivalent. With `to_dynamic`
/// (whose result holds `v`) and `from_dynamic` (which succeeds on any value
/// that holds some tagged value, and returns one held by it), the round trip
/// of a well-formed value succeeds and returns a value equivalent to it.
pub proof fn lemma_round_trip(d: Dynamic, v: Value, w: Value)
    requires
        represents(d, v),
        represents(d, w),
    ensures
        convertible(d),
        equivalent(v, w),
    decreases v,
{
    lemma_children_below(v);
    lemma_children_below(w);
    match v {
        Value::Array(xs) => {
            let ys = w->Array_0;
            assert forall|i: int| 0 <= i < xs@.len() implies equivalent(
                #[trigger] xs@[i],
                ys@[i],
            ) by {
                let ds = native_of(d)->Array_0;
                assert(represents(ds[i], xs@[i]));
                assert(represents(ds[i], ys@[i]));
                lemma_round_trip(ds[i], xs@[i], ys@[i]);
            }
        },
        Value::Object(xs) => {
            let ys = w->Object_0;
            let m = native_of(d)->Dict_0;
            assert forall|i: int, j: int|
                0 <= i < xs@.len() && 0 <= j < ys@.len() && xs@[i].0@ == ys@[j].0@ implies equivalent(
                (#[trigger] xs@[i]).1,
                (#[trigger] ys@[j]).1,
            ) by {
                let k = xs@[i].0@;
                assert(keys_of(xs@)[i] == k);
                assert(keys_of(xs@).to_set().contains(k));
                assert(dict_keys(m).to_set().contains(k));
                let b = dict_keys(m).index_of(k);
                assert(m[b].0 == k);
                assert(represents(m[b].1, xs@[i].1));
                assert(represents(m[b].1, ys@[j].1));
                lemma_round_trip(m[b].1, xs@[i].1, ys@[j].1);
            }
        },
        _ => {},
    }
}

} // verus!
