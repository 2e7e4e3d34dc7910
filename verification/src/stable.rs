//! The stable structures beneath the catalog, and what is taken on trust of
//! them.
//!
//! Nothing in this file is proved. Each item names the function of
//! `ic_stable_structures` that it calls and says what is claimed of it. All of
//! them write through to the backing memory; where that memory cannot grow any
//! further the program stops, as it does for a failed allocation. It also
//! stops on attaching to a memory that another version of these structures
//! has laid out.
//!
//! A region is reserved for the one structure that is attached to it: a second
//! structure on the same region would write to the same bytes. So a `Region`
//! cannot be copied, `RegionManager::claim` is the one caller of `manager_get`
//! and hands each tag out once, and attaching a structure takes the region
//! away from the caller until the structure is detached again.

use ic_stable_structures::cell::{InitError, ValueError};
use ic_stable_structures::memory_manager::{MemoryId, MemoryManager, VirtualMemory};
use ic_stable_structures::storable::Blob;
use ic_stable_structures::{DefaultMemoryImpl, StableBTreeMap, StableCell};
use vstd::prelude::*;

verus! {

/// The largest number of bytes that one stored value may take.
pub const MAX_VALUE_SIZE: usize = 1024;

/// The number of regions that one memory can be divided into: tags run from 0
/// up to, and not including, this number.
pub const REGION_LIMIT: u8 = 255;

/// A `MemoryManager` over the default memory: one growable address space
/// divided into regions.
#[verifier::external_body]
pub struct ManagedMemory {
    inner: MemoryManager<DefaultMemoryImpl>,
}

/// A `VirtualMemory`: the handle of one region of a `ManagedMemory`.
#[verifier::external_body]
pub struct Region {
    inner: VirtualMemory<DefaultMemoryImpl>,
}

/// A `StableCell` that holds one `u64` in a region.
#[verifier::external_body]
pub struct CounterCell {
    inner: StableCell<u64, VirtualMemory<DefaultMemoryImpl>>,
}

/// A `StableBTreeMap` from `u64` keys to byte strings of at most
/// `MAX_VALUE_SIZE` bytes, in a region.
#[verifier::external_body]
pub struct BytesMap {
    inner: StableBTreeMap<u64, Blob<1024>, VirtualMemory<DefaultMemoryImpl>>,
}

/// The error of `StableCell::init`.
#[verifier::external_type_specification]
#[verifier::external_body]
pub struct ExInitError(InitError);

/// The error of `StableCell::set`.
#[verifier::external_type_specification]
#[verifier::external_body]
pub struct ExValueError(ValueError);

/// The tag that a region was asked for with.
pub uninterp spec fn region_tag(region: Region) -> u8;

/// The number that a cell holds.
pub uninterp spec fn cell_value(cell: CounterCell) -> u64;

/// The tag of the region that a cell is attached to.
pub uninterp spec fn cell_region(cell: CounterCell) -> u8;

/// The key-value pairs that a map holds.
pub uninterp spec fn map_entries(map: BytesMap) -> Map<u64, Seq<u8>>;

/// The tag of the region that a map is attached to.
pub uninterp spec fn map_region(map: BytesMap) -> u8;

/// `MemoryManager::init` on a default memory. It attaches to the regions that
/// the memory already holds, or lays out an empty set of regions.
#[verifier::external_body]
pub(crate) fn manager_init() -> ManagedMemory {
    ManagedMemory { inner: MemoryManager::init(DefaultMemoryImpl::default()) }
}

/// `MemoryManager::get` with `MemoryId::new(tag)`: the handle of the region
/// with that tag. `MemoryId::new` refuses the tag 255.
#[verifier::external_body]
pub(crate) fn manager_get(memory: &ManagedMemory, tag: u8) -> (region: Region)
    requires
        tag < REGION_LIMIT,
    ensures
        region_tag(region) == tag,
{
    Region { inner: memory.inner.get(MemoryId::new(tag)) }
}

/// `StableCell::init` with the default value `start`: a cell in that region.
/// The value of the cell comes from the region where it already holds a cell,
/// so nothing is claimed of it.
#[verifier::external_body]
pub(crate) fn cell_init(region: Region, start: u64) -> (cell: Result<CounterCell, InitError>)
    ensures
        cell matches Ok(c) ==> cell_region(c) == region_tag(region),
{
    match StableCell::init(region.inner, start) {
        Ok(inner) => Ok(CounterCell { inner }),
        Err(e) => Err(e),
    }
}

/// `StableCell::into_memory`: the region that the cell was attached to.
#[verifier::external_body]
pub(crate) fn cell_into_region(cell: CounterCell) -> (region: Region)
    ensures
        region_tag(region) == cell_region(cell),
{
    Region { inner: cell.inner.into_memory() }
}

/// `StableCell::get`: the number that the cell holds.
#[verifier::external_body]
pub(crate) fn cell_get(cell: &CounterCell) -> (value: u64)
    ensures
        value == cell_value(*cell),
{
    *cell.inner.get()
}

/// `StableCell::set`: on success the cell holds `value` and the number it held
/// before is handed back; on failure the cell is unchanged. The cell stays in
/// its region.
#[verifier::external_body]
pub(crate) fn cell_set(cell: &mut CounterCell, value: u64) -> (previous: Result<u64, ValueError>)
    ensures
        previous matches Ok(p) ==> p == cell_value(*old(cell)) && cell_value(*final(cell)) == value,
        previous is Err ==> cell_value(*final(cell)) == cell_value(*old(cell)),
        cell_region(*final(cell)) == cell_region(*old(cell)),
{
    cell.inner.set(value)
}

/// `StableBTreeMap::init`: a map in that region. The map is loaded from the
/// region where it already holds one, so nothing is claimed of its entries.
#[verifier::external_body]
pub(crate) fn map_init(region: Region) -> (map: BytesMap)
    ensures
        map_region(map) == region_tag(region),
{
    BytesMap { inner: StableBTreeMap::init(region.inner) }
}

/// `StableBTreeMap::into_memory`: the region that the map was attached to.
#[verifier::external_body]
pub(crate) fn map_into_region(map: BytesMap) -> (region: Region)
    ensures
        region_tag(region) == map_region(map),
{
    Region { inner: map.inner.into_memory() }
}

/// `StableBTreeMap::get`: the value stored under `key`, if there is one.
#[verifier::external_body]
pub(crate) fn map_get(map: &BytesMap, key: u64) -> (value: Option<Vec<u8>>)
    ensures
        value is Some <==> map_entries(*map).contains_key(key),
        value matches Some(v) ==> v@ == map_entries(*map)[key],
{
    match map.inner.get(&key) {
        Some(blob) => Some(blob.as_slice().to_vec()),
        None => None,
    }
}

/// `StableBTreeMap::insert`: afterwards `key` maps to `value`, and every other
/// key to what it mapped to before. A value over `MAX_VALUE_SIZE` bytes is
/// refused by the map, so it is left out here. The map stays in its region.
#[verifier::external_body]
pub(crate) fn map_insert(map: &mut BytesMap, key: u64, value: &Vec<u8>)
    requires
        value@.len() <= MAX_VALUE_SIZE,
    ensures
        map_entries(*final(map)) == map_entries(*old(map)).insert(key, value@),
        map_region(*final(map)) == map_region(*old(map)),
{
    if let Ok(blob) = Blob::try_from(value.as_slice()) {
        map.inner.insert(key, blob);
    }
}

/// `StableBTreeMap::remove`: afterwards `key` is absent; the result says
/// whether it was present. The map stays in its region.
#[verifier::external_body]
pub(crate) fn map_remove(map: &mut BytesMap, key: u64) -> (removed: bool)
    ensures
        removed == map_entries(*old(map)).contains_key(key),
        map_entries(*final(map)) == map_entries(*old(map)).remove(key),
        map_region(*final(map)) == map_region(*old(map)),
{
    map.inner.remove(&key).is_some()
}

/// `StableBTreeMap::iter`, run to its end: every entry of the map, once, in
/// ascending order of the keys.
#[verifier::external_body]
pub(crate) fn map_items(map: &BytesMap) -> (items: Vec<(u64, Vec<u8>)>)
    ensures
        forall|i: int, j: int| 0 <= i < j < items@.len() ==> items@[i].0 < items@[j].0,
        forall|i: int|
            0 <= i < items@.len() ==> map_entries(*map).contains_key(#[trigger] items@[i].0)
                && map_entries(*map)[items@[i].0] == items@[i].1@,
        forall|k: u64|
            map_entries(*map).contains_key(k) ==> exists|i: int|
                0 <= i < items@.len() && (#[trigger] items@[i]).0 == k,
{
    map.inner.iter().map(|(key, blob)| (key, blob.as_slice().to_vec())).collect()
}

} // verus!
