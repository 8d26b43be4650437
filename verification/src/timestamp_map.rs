use vstd::prelude::*;

verus! {

/// Declares heapless::IndexMap, the fixed-capacity hash map that stores
/// the per-kind timestamps; opaque here, described only by
/// `kind_timestamps`.
#[verifier::external_type_specification]
#[verifier::external_body]
#[verifier::reject_recursive_types(K)]
#[verifier::reject_recursive_types(V)]
#[verifier::reject_recursive_types(S)]
pub struct ExIndexMap<K, V, S, const N: usize>(heapless::IndexMap<K, V, S, N>);

/// Declares hash32::BuildHasherDefault, the hasher factory in the map's
/// type.
#[verifier::external_type_specification]
#[verifier::external_body]
#[verifier::reject_recursive_types(H)]
pub struct ExBuildHasherDefault<H>(hash32::BuildHasherDefault<H>);

/// Declares hash32::FnvHasher, the hasher the map's alias picks.
#[verifier::external_type_specification]
#[verifier::external_body]
pub struct ExFnvHasher(hash32::FnvHasher);

/// The entries that a kind-to-timestamp map holds.
pub uninterp spec fn kind_timestamps(m: heapless::FnvIndexMap<u16, u64, 64>) -> Map<u16, u64>;

/// The contents of a map with nothing in it.
pub open spec fn empty_timestamps() -> Map<u16, u64> {
    Map::empty()
}

/// Relies on heapless::FnvIndexMap::new: a freshly created map is empty.
#[verifier::external_body]
pub(crate) fn map_new() -> (r: heapless::FnvIndexMap<u16, u64, 64>)
    ensures
        kind_timestamps(r) == empty_timestamps(),
{
    heapless::FnvIndexMap::new()
}

/// Relies on heapless::IndexMap::get: hands out the value stored under the
/// key, or nothing when the key is absent.
#[verifier::external_body]
pub(crate) fn map_get(m: &heapless::FnvIndexMap<u16, u64, 64>, key: u16) -> (r: Option<u64>)
    ensures
        kind_timestamps(*m).dom().contains(key) ==> r == Some(kind_timestamps(*m)[key]),
        !kind_timestamps(*m).dom().contains(key) ==> r is None,
{
    m.get(&key).copied()
}

/// Relies on heapless::IndexMap::insert: replaces the value of a key that
/// is present, inserts a fresh key while the map is not full, and refuses
/// a fresh key, handing the pair back untouched, only when the map holds
/// as many entries as its capacity.
#[verifier::external_body]
pub(crate) fn map_insert(
    m: &mut heapless::FnvIndexMap<u16, u64, 64>,
    key: u16,
    value: u64,
) -> (r: Result<Option<u64>, (u16, u64)>)
    ensures
        kind_timestamps(*old(m)).dom().contains(key) ==> (r matches Ok(prev) && prev == Some(
            kind_timestamps(*old(m))[key],
        )) && kind_timestamps(*final(m)) == kind_timestamps(*old(m)).insert(key, value),
        !kind_timestamps(*old(m)).dom().contains(key) && kind_timestamps(*old(m)).dom().len() < 64
            ==> (r matches Ok(prev) && prev is None) && kind_timestamps(*final(m))
            == kind_timestamps(*old(m)).insert(key, value),
        r is Err ==> (r matches Err(back) && back.0 == key && back.1 == value) && kind_timestamps(
            *final(m),
        ) == kind_timestamps(*old(m)),
{
    m.insert(key, value)
}

} // verus!
