//! The concurrent maps a room keeps its records in.
//!
//! The maps are `dashmap::DashMap`s. The verifier does not look inside one:
//! each kind of map has a ghost function that names what the map holds, and
//! each operation is a small function whose contract is taken on trust from
//! the behaviour of the `dashmap` method it calls. Every operation that
//! changes a map takes it by `&mut`, so nothing else can change the map
//! between two calls.

use crate::state::room_state::model::RoomView;
use crate::state::room_state::RoomState;
use dashmap::DashMap;
use vstd::prelude::*;

verus! {

#[verifier::external_type_specification]
#[verifier::external_body]
#[verifier::reject_recursive_types(K)]
#[verifier::reject_recursive_types(V)]
#[verifier::reject_recursive_types(S)]
pub struct ExDashMap<K, V, S>(DashMap<K, V, S>);

/// The entries of a map from player ids to display names.
pub uninterp spec fn names_held(map: &DashMap<usize, String>) -> Map<usize, Seq<char>>;

/// The entries of a map from display names to player ids.
pub uninterp spec fn ids_held(map: &DashMap<String, usize>) -> Map<Seq<char>, usize>;

/// The entries of a map from player ids to numbers.
pub uninterp spec fn numbers_held(map: &DashMap<usize, u64>) -> Map<usize, u64>;

/// The entries of a map from room ids to rooms.
pub uninterp spec fn rooms_held(map: &DashMap<String, RoomState>) -> Map<Seq<char>, RoomView>;

/// `DashMap::new`: the new map holds nothing.
#[verifier::external_body]
pub(crate) fn names_new() -> (table: DashMap<usize, String>)
    ensures
        names_held(&table) =~= Map::empty(),
{
    DashMap::new()
}

/// `DashMap::insert`: the key maps to the new value afterwards, the other
/// entries stay, and the value the key had before, if any, is returned.
#[verifier::external_body]
pub(crate) fn names_insert(map: &mut DashMap<usize, String>, id: usize, name: String) -> (prev:
    Option<String>)
    ensures
        names_held(final(map)) == names_held(old(map)).insert(id, name@),
        prev.is_some() == names_held(old(map)).contains_key(id),
        prev matches Some(p) ==> p@ == names_held(old(map))[id],
{
    map.insert(id, name)
}

/// `DashMap::remove`: the key is absent afterwards, the other entries
/// stay, and the value the key had, if any, is returned.
#[verifier::external_body]
pub(crate) fn names_remove(map: &mut DashMap<usize, String>, id: usize) -> (prev: Option<String>)
    ensures
        names_held(final(map)) == names_held(old(map)).remove(id),
        prev.is_some() == names_held(old(map)).contains_key(id),
        prev matches Some(p) ==> p@ == names_held(old(map))[id],
{
    map.remove(&id).map(|entry| entry.1)
}

/// `DashMap::get`: a copy of the value under the key, if the map holds
/// the key.
#[verifier::external_body]
pub(crate) fn names_get(map: &DashMap<usize, String>, id: usize) -> (found: Option<String>)
    ensures
        found.is_some() == names_held(map).contains_key(id),
        found matches Some(name) ==> name@ == names_held(map)[id],
{
    map.get(&id).map(|entry| entry.value().clone())
}

/// `DashMap::new`: the new map holds nothing.
#[verifier::external_body]
pub(crate) fn ids_new() -> (table: DashMap<String, usize>)
    ensures
        ids_held(&table) =~= Map::empty(),
{
    DashMap::new()
}

/// `DashMap::insert`: the key maps to the new value afterwards, the other
/// entries stay, and the value the key had before, if any, is returned.
#[verifier::external_body]
pub(crate) fn ids_insert(map: &mut DashMap<String, usize>, name: String, id: usize) -> (prev:
    Option<usize>)
    ensures
        ids_held(final(map)) == ids_held(old(map)).insert(name@, id),
        prev.is_some() == ids_held(old(map)).contains_key(name@),
        prev matches Some(p) ==> p == ids_held(old(map))[name@],
{
    map.insert(name, id)
}

/// `DashMap::remove`: the key is absent afterwards, the other entries
/// stay, and the value the key had, if any, is returned.
#[verifier::external_body]
pub(crate) fn ids_remove(map: &mut DashMap<String, usize>, name: &str) -> (prev: Option<usize>)
    ensures
        ids_held(final(map)) == ids_held(old(map)).remove(name@),
        prev.is_some() == ids_held(old(map)).contains_key(name@),
        prev matches Some(p) ==> p == ids_held(old(map))[name@],
{
    map.remove(name).map(|entry| entry.1)
}

/// `DashMap::get`: a copy of the value under the key, if the map holds
/// the key.
#[verifier::external_body]
pub(crate) fn ids_get(map: &DashMap<String, usize>, name: &str) -> (found: Option<usize>)
    ensures
        found.is_some() == ids_held(map).contains_key(name@),
        found matches Some(id) ==> id == ids_held(map)[name@],
{
    map.get(name).map(|entry| *entry.value())
}

/// `DashMap::contains_key`: whether the map holds the key.
#[verifier::external_body]
pub(crate) fn ids_contains(map: &DashMap<String, usize>, name: &str) -> (found: bool)
    ensures
        found == ids_held(map).contains_key(name@),
{
    map.contains_key(name)
}

/// `DashMap::new`: the new map holds nothing.
#[verifier::external_body]
pub(crate) fn numbers_new() -> (table: DashMap<usize, u64>)
    ensures
        numbers_held(&table) =~= Map::empty(),
{
    DashMap::new()
}

/// `DashMap::insert`: the key maps to the new value afterwards, the other
/// entries stay, and the value the key had before, if any, is returned.
#[verifier::external_body]
pub(crate) fn numbers_insert(map: &mut DashMap<usize, u64>, id: usize, number: u64) -> (prev:
    Option<u64>)
    ensures
        numbers_held(final(map)) == numbers_held(old(map)).insert(id, number),
        prev.is_some() == numbers_held(old(map)).contains_key(id),
        prev matches Some(p) ==> p == numbers_held(old(map))[id],
{
    map.insert(id, number)
}

/// `DashMap::remove`: the key is absent afterwards, the other entries
/// stay, and the value the key had, if any, is returned.
#[verifier::external_body]
pub(crate) fn numbers_remove(map: &mut DashMap<usize, u64>, id: usize) -> (prev: Option<u64>)
    ensures
        numbers_held(final(map)) == numbers_held(old(map)).remove(id),
        prev.is_some() == numbers_held(old(map)).contains_key(id),
        prev matches Some(p) ==> p == numbers_held(old(map))[id],
{
    map.remove(&id).map(|entry| entry.1)
}

/// `DashMap::get`: a copy of the value under the key, if the map holds
/// the key.
#[verifier::external_body]
pub(crate) fn numbers_get(map: &DashMap<usize, u64>, id: usize) -> (found: Option<u64>)
    ensures
        found.is_some() == numbers_held(map).contains_key(id),
        found matches Some(number) ==> number == numbers_held(map)[id],
{
    map.get(&id).map(|entry| *entry.value())
}

/// `DashMap::new`: the new map holds nothing.
#[verifier::external_body]
pub(crate) fn rooms_new() -> (table: DashMap<String, RoomState>)
    ensures
        rooms_held(&table) =~= Map::empty(),
{
    DashMap::new()
}

/// `DashMap::insert`: the key maps to the new value afterwards, the other
/// entries stay, and the value the key had before, if any, is returned.
#[verifier::external_body]
pub(crate) fn rooms_insert(
    map: &mut DashMap<String, RoomState>,
    id: String,
    room: RoomState,
) -> (prev: Option<RoomState>)
    ensures
        rooms_held(final(map)) == rooms_held(old(map)).insert(id@, room@),
        prev.is_some() == rooms_held(old(map)).contains_key(id@),
        prev matches Some(p) ==> p@ == rooms_held(old(map))[id@],
{
    map.insert(id, room)
}

/// `DashMap::remove`: the key is absent afterwards, the other entries
/// stay, and the value the key had, if any, is returned.
#[verifier::external_body]
pub(crate) fn rooms_remove(map: &mut DashMap<String, RoomState>, id: &str) -> (prev: Option<
    RoomState,
>)
    ensures
        rooms_held(final(map)) == rooms_held(old(map)).remove(id@),
        prev.is_some() == rooms_held(old(map)).contains_key(id@),
        prev matches Some(p) ==> p@ == rooms_held(old(map))[id@],
{
    map.remove(id).map(|entry| entry.1)
}

/// `DashMap::contains_key`: whether the map holds the key.
#[verifier::external_body]
pub(crate) fn rooms_contains(map: &DashMap<String, RoomState>, id: &str) -> (found: bool)
    ensures
        found == rooms_held(map).contains_key(id@),
{
    map.contains_key(id)
}

/// `DashMap::iter`: a copy of every key of the map, each once, in an
/// order that is the map's own business.
#[verifier::external_body]
pub(crate) fn rooms_ids(map: &DashMap<String, RoomState>) -> (ids: Vec<String>)
    ensures
        forall|i: int| 0 <= i < ids@.len() ==> rooms_held(map).contains_key(#[trigger] ids@[i]@),
        forall|i: int, j: int|
            0 <= i < j < ids@.len() ==> (#[trigger] ids@[i])@ != (#[trigger] ids@[j])@,
        forall|id: Seq<char>| #[trigger]
            rooms_held(map).contains_key(id) ==> exists|i: int|
                0 <= i < ids@.len() && (#[trigger] ids@[i])@ == id,
{
    map.iter().map(|entry| entry.key().clone()).collect()
}

} // verus!
