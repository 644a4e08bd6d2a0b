//! Persistent maps from variable names to values or stack slots, kept in
//! `im::HashMap`, and what the library relies on of them.
use vstd::prelude::*;

verus! {

#[verifier::external_type_specification]
#[verifier::external_body]
#[verifier::reject_recursive_types(K)]
#[verifier::reject_recursive_types(V)]
#[verifier::reject_recursive_types(S)]
pub struct ExImHashMap<K, V, S>(im::HashMap<K, V, S>);

/// The bindings that a map from names to `i32` holds, by the text of the name.
pub uninterp spec fn i32_entries(m: im::HashMap<String, i32>) -> Map<Seq<char>, i32>;

/// The bindings that a map from names to `usize` holds, by the text of the name.
pub uninterp spec fn usize_entries(m: im::HashMap<String, usize>) -> Map<Seq<char>, usize>;

/// `im::HashMap::new`: a map with no bindings.
#[verifier::external_body]
pub fn i32_env_new() -> (r: im::HashMap<String, i32>)
    ensures
        i32_entries(r).dom() =~= Set::<Seq<char>>::empty(),
{
    im::HashMap::new()
}

/// `im::HashMap::get`: the value bound to `x`, if any.
#[verifier::external_body]
pub fn i32_env_get(m: &im::HashMap<String, i32>, x: &String) -> (r: Option<i32>)
    ensures
        r == (if i32_entries(*m).dom().contains(x@) {
            Some(i32_entries(*m)[x@])
        } else {
            None
        }),
{
    m.get(x).copied()
}

/// `im::HashMap::update`: a new map that binds `x` to `v` and keeps every other
/// binding of `m`; `m` itself is unchanged.
#[verifier::external_body]
pub fn i32_env_update(m: &im::HashMap<String, i32>, x: String, v: i32) -> (r: im::HashMap<
    String,
    i32,
>)
    ensures
        i32_entries(r) == i32_entries(*m).insert(x@, v),
{
    m.update(x, v)
}

/// `im::HashMap::new`: a map with no bindings.
#[verifier::external_body]
pub fn usize_env_new() -> (r: im::HashMap<String, usize>)
    ensures
        usize_entries(r).dom() =~= Set::<Seq<char>>::empty(),
{
    im::HashMap::new()
}

/// `im::HashMap::get`: the value bound to `x`, if any.
#[verifier::external_body]
pub fn usize_env_get(m: &im::HashMap<String, usize>, x: &String) -> (r: Option<usize>)
    ensures
        r == (if usize_entries(*m).dom().contains(x@) {
            Some(usize_entries(*m)[x@])
        } else {
            None
        }),
{
    m.get(x).copied()
}

/// `im::HashMap::update`: a new map that binds `x` to `v` and keeps every other
/// binding of `m`; `m` itself is unchanged.
#[verifier::external_body]
pub fn usize_env_update(m: &im::HashMap<String, usize>, x: String, v: usize) -> (r: im::HashMap<
    String,
    usize,
>)
    ensures
        usize_entries(r) == usize_entries(*m).insert(x@, v),
{
    m.update(x, v)
}

} // verus!
