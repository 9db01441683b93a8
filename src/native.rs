use vstd::prelude::*;

use agent_stream_kit::AgentValue;
use rhai::Dynamic;

verus! {

#[verifier::external_type_specification]
#[verifier::external_body]
pub struct ExDynamic(rhai::Dynamic);

/// One level of a Rhai dynamic value, as Rhai's own accessors report it: a
/// primitive, or the dynamic values held one level down.
pub enum Native {
    Unit,
    Bool(bool),
    Int(i64),
    /// The IEEE-754 bit pattern of a float.
    Float(u64),
    Str(Seq<char>),
    Array(Seq<Dynamic>),
    /// The entries of a map, each key once, in the order the map lists them.
    Dict(Seq<(Seq<char>, Dynamic)>),
    /// A host value carried through the engine without conversion.
    Foreign(AgentValue),
    /// Any other kind of value a script can build (a character, a function
    /// pointer, a timestamp, ...).
    Other,
}

/// What a Rhai dynamic value holds at its top level.
pub uninterp spec fn native_of(d: Dynamic) -> Native;

/// How deeply a Rhai dynamic value that is not shared nests; the values it
/// holds one level down nest less deeply.
pub uninterp spec fn nesting_of(d: Dynamic) -> nat;

/// The name Rhai gives to the type of what a value holds.
pub uninterp spec fn kind_name_of(d: Dynamic) -> Seq<char>;

/// The keys of a map's entries, in the order listed.
pub open spec fn dict_keys(es: Seq<(Seq<char>, Dynamic)>) -> Seq<Seq<char>> {
    es.map_values(|e: (Seq<char>, Dynamic)| e.0)
}

/// Whether a Rhai dynamic value is a shared handle to a locked cell. Only a
/// value that is not shared owns its content, so only such a value is read
/// through the accessors below.
pub uninterp spec fn is_shared_of(d: Dynamic) -> bool;

/// Relies on `Dynamic::is_shared`, which looks at the variant alone and takes
/// no lock.
#[verifier::external_body]
pub(crate) fn dyn_is_shared(d: &Dynamic) -> (r: bool)
    ensures
        r == is_shared_of(*d),
{
    d.is_shared()
}

/// Relies on `Dynamic::UNIT`: the unit value.
#[verifier::external_body]
pub(crate) fn dyn_unit() -> (r: Dynamic)
    ensures
        native_of(r) == Native::Unit,
        !is_shared_of(r),
{
    Dynamic::UNIT
}

/// Relies on `Dynamic::from` for `bool`: it stores a boolean.
#[verifier::external_body]
pub(crate) fn dyn_bool(b: bool) -> (r: Dynamic)
    ensures
        native_of(r) == Native::Bool(b),
        !is_shared_of(r),
{
    Dynamic::from(b)
}

/// Relies on `Dynamic::from` for `i64`: it stores an integer.
#[verifier::external_body]
pub(crate) fn dyn_int(i: i64) -> (r: Dynamic)
    ensures
        native_of(r) == Native::Int(i),
        !is_shared_of(r),
{
    Dynamic::from(i)
}

/// Relies on `Dynamic::from` for Rhai's float type, built from its bits.
#[verifier::external_body]
pub(crate) fn dyn_float(bits: u64) -> (r: Dynamic)
    ensures
        native_of(r) == Native::Float(bits),
        !is_shared_of(r),
{
    Dynamic::from(rhai::FLOAT::from_bits(bits))
}

/// Relies on `Dynamic::from` for `String`: it stores the text.
#[verifier::external_body]
pub(crate) fn dyn_str(s: String) -> (r: Dynamic)
    ensures
        native_of(r) == Native::Str(s@),
        !is_shared_of(r),
{
    Dynamic::from(s)
}

/// Relies on `Dynamic::from_array`: it stores the elements in order.
#[verifier::external_body]
pub(crate) fn dyn_array(items: Vec<Dynamic>) -> (r: Dynamic)
    ensures
        native_of(r) == Native::Array(items@),
        !is_shared_of(r),
{
    Dynamic::from_array(items)
}

/// Relies on `Dynamic::from_map` over a `rhai::Map` collected from entries
/// whose keys are distinct: each key maps to its own value.
#[verifier::external_body]
pub(crate) fn dyn_map(entries: Vec<(String, Dynamic)>) -> (r: Dynamic)
    requires
        crate::value::keys_distinct(entries@),
    ensures
        native_of(r) is Dict,
        !is_shared_of(r),
        native_of(r)->Dict_0.len() == entries@.len(),
        dict_keys(native_of(r)->Dict_0).to_set() == crate::value::keys_of(entries@).to_set(),
        forall|i: int, j: int|
            0 <= i < entries@.len() && 0 <= j < native_of(r)->Dict_0.len() && (
            #[trigger] native_of(r)->Dict_0[j]).0 == (#[trigger] entries@[i]).0@
                ==> native_of(r)->Dict_0[j].1 == entries@[i].1,
{
    Dynamic::from_map(entries.into_iter().map(|(k, v)| (k.into(), v)).collect())
}

/// Relies on `Dynamic::from` for a host value: it is stored unconverted.
#[verifier::external_body]
pub(crate) fn dyn_foreign(a: AgentValue) -> (r: Dynamic)
    ensures
        native_of(r) == Native::Foreign(a),
        !is_shared_of(r),
{
    Dynamic::from(a)
}

/// Relies on `Dynamic::is_unit`.
#[verifier::external_body]
pub(crate) fn dyn_is_unit(d: &Dynamic) -> (r: bool)
    requires
        !is_shared_of(*d),
    ensures
        r == (native_of(*d) is Unit),
{
    d.is_unit()
}

/// Relies on `Dynamic::as_bool`: the boolean held, if any.
#[verifier::external_body]
pub(crate) fn dyn_as_bool(d: &Dynamic) -> (r: Option<bool>)
    requires
        !is_shared_of(*d),
    ensures
        r == (match native_of(*d) {
            Native::Bool(b) => Some(b),
            _ => None,
        }),
{
    d.as_bool().ok()
}

/// Relies on `Dynamic::as_int`: the integer held, if any.
#[verifier::external_body]
pub(crate) fn dyn_as_int(d: &Dynamic) -> (r: Option<i64>)
    requires
        !is_shared_of(*d),
    ensures
        r == (match native_of(*d) {
            Native::Int(i) => Some(i),
            _ => None,
        }),
{
    d.as_int().ok()
}

/// Relies on `Dynamic::as_float`: the bits of the float held, if any.
#[verifier::external_body]
pub(crate) fn dyn_as_float(d: &Dynamic) -> (r: Option<u64>)
    requires
        !is_shared_of(*d),
    ensures
        r == (match native_of(*d) {
            Native::Float(bits) => Some(bits),
            _ => None,
        }),
{
    d.as_float().ok().map(|x| x.to_bits())
}

/// Relies on `Dynamic::into_string` (on a copy): the text held, if any.
#[verifier::external_body]
pub(crate) fn dyn_as_str(d: &Dynamic) -> (r: Option<String>)
    requires
        !is_shared_of(*d),
    ensures
        native_of(*d) is Str <==> r is Some,
        r is Some ==> r->Some_0@ == native_of(*d)->Str_0,
{
    d.clone().into_string().ok()
}

/// Relies on `Dynamic::as_array_ref`: copies of the elements held, in order.
#[verifier::external_body]
pub(crate) fn dyn_as_array(d: &Dynamic) -> (r: Option<Vec<Dynamic>>)
    requires
        !is_shared_of(*d),
    ensures
        native_of(*d) is Array <==> r is Some,
        r is Some ==> r->Some_0@ == native_of(*d)->Array_0,
        r is Some ==> forall|i: int|
            0 <= i < r->Some_0@.len() ==> nesting_of(#[trigger] r->Some_0@[i]) < nesting_of(*d),
{
    d.as_array_ref().ok().map(|a| a.to_vec())
}

/// Relies on `Dynamic::as_map_ref`: the entries held, each key once, with
/// copies of their values.
#[verifier::external_body]
pub(crate) fn dyn_as_map(d: &Dynamic) -> (r: Option<Vec<(String, Dynamic)>>)
    requires
        !is_shared_of(*d),
    ensures
        native_of(*d) is Dict <==> r is Some,
        r is Some ==> crate::value::keys_distinct(r->Some_0@),
        r is Some ==> r->Some_0@.len() == native_of(*d)->Dict_0.len(),
        r is Some ==> forall|i: int|
            0 <= i < r->Some_0@.len() ==> (#[trigger] r->Some_0@[i]).0@ == native_of(
                *d,
            )->Dict_0[i].0 && r->Some_0@[i].1 == native_of(*d)->Dict_0[i].1,
        r is Some ==> forall|i: int|
            0 <= i < r->Some_0@.len() ==> nesting_of(#[trigger] r->Some_0@[i].1) < nesting_of(
                *d,
            ),
{
    d.as_map_ref().ok().map(|m| m.iter().map(|(k, v)| (k.to_string(), v.clone())).collect())
}

/// Relies on `Dynamic::try_cast` (on a copy): the host value held, if any.
#[verifier::external_body]
pub(crate) fn dyn_as_foreign(d: &Dynamic) -> (r: Option<AgentValue>)
    requires
        !is_shared_of(*d),
    ensures
        r == (match native_of(*d) {
            Native::Foreign(a) => Some(a),
            _ => None,
        }),
{
    d.clone().try_cast::<AgentValue>()
}

/// Relies on `Dynamic::as_int`, whose error on a value that is not shared and
/// not an integer is `Dynamic::type_name`: the name of the type held.
#[verifier::external_body]
pub(crate) fn dyn_kind_name(d: &Dynamic) -> (r: String)
    requires
        !is_shared_of(*d),
        native_of(*d) is Other,
    ensures
        r@ == kind_name_of(*d),
{
    d.as_int().err().unwrap_or_default().to_string()
}

} // verus!
