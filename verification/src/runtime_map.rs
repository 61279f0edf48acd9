//! The hash map of the kernel runtime (`HashMap<i64, i64>` in kernels):
//! open addressing with linear probing over a table of slots that starts
//! with 16 slots and doubles when three quarters of them are taken.
//!
//! A removal leaves a marker in its slot, so that probing for the keys
//! placed behind it goes on past it; markers take slots until the table
//! grows, which drops them. The table is specified slot by slot, and the
//! map laws (a stored value is found, a removal takes out one key and
//! leaves the others) are proved over that specification.
use vstd::prelude::*;
use crate::kernel_runtime::{hash_i64, hash_of};

verus! {

/// Whether a slot is free, holds an entry, or held one that was removed.
#[derive(Debug, Clone, Copy, PartialEq, Eq, Structural)]
pub enum SlotState {
    Empty,
    Live,
    Removed,
}

/// One slot of the table.
#[derive(Debug, Clone, Copy, PartialEq, Eq, Structural)]
pub struct MapEntry {
    pub key: i64,
    pub value: i64,
    pub hash: i64,
    pub state: SlotState,
}

/// A hash map from `i64` keys to `i64` values.
#[derive(Debug)]
pub struct RuntimeHashMap {
    pub capacity: usize,
    /// Entries in the map.
    pub length: usize,
    /// Slots that are not free: entries and removal markers.
    pub used: usize,
    pub entries: Vec<MapEntry>,
}

pub open spec fn empty_entry() -> MapEntry {
    MapEntry { key: 0, value: 0, hash: 0, state: SlotState::Empty }
}

/// A table of `n` free slots.
pub open spec fn empty_slots(n: nat) -> Seq<MapEntry> {
    Seq::new(n, |i: int| empty_entry())
}

/// How many slots hold an entry.
pub open spec fn live_count(s: Seq<MapEntry>) -> nat
    decreases s.len(),
{
    if s.len() == 0 {
        0
    } else {
        live_count(s.drop_last()) + if s.last().state == SlotState::Live {
            1nat
        } else {
            0nat
        }
    }
}

/// How many slots are not free.
pub open spec fn used_count(s: Seq<MapEntry>) -> nat
    decreases s.len(),
{
    if s.len() == 0 {
        0
    } else {
        used_count(s.drop_last()) + if s.last().state != SlotState::Empty {
            1nat
        } else {
            0nat
        }
    }
}

/// The slot where probing for a hash starts: the hash masked by the
/// capacity less one.
pub open spec fn start_slot(hash: i64, cap: int) -> int {
    ((hash as u64) & ((cap - 1) as u64)) as int
}

/// The slot after `i`, wrapping around at the end of the table.
pub open spec fn next_slot(i: int, cap: int) -> int {
    if i + 1 < cap {
        i + 1
    } else {
        0
    }
}

/// Whether probing for `key` stops at a slot: the slot is free or holds
/// the key. A removal marker does not stop it.
pub open spec fn stops(e: MapEntry, key: i64) -> bool {
    e.state == SlotState::Empty || (e.state == SlotState::Live && e.key == key)
}

/// The first slot from `i`, looking at no more than `fuel` slots, where
/// probing for `key` stops.
pub open spec fn probe_stop(s: Seq<MapEntry>, key: i64, i: int, fuel: nat) -> Option<int>
    decreases fuel,
{
    if fuel == 0 {
        None
    } else if stops(s[i], key) {
        Some(i)
    } else {
        probe_stop(s, key, next_slot(i, s.len() as int), (fuel - 1) as nat)
    }
}

/// The slot where probing for `key` stops, over the whole table.
pub open spec fn lookup_slot(s: Seq<MapEntry>, key: i64) -> Option<int> {
    probe_stop(s, key, start_slot(hash_of(key), s.len() as int), s.len())
}

/// The first free slot from `i`, looking at no more than `fuel` slots.
pub open spec fn probe_free(s: Seq<MapEntry>, i: int, fuel: nat) -> Option<int>
    decreases fuel,
{
    if fuel == 0 {
        None
    } else if s[i].state == SlotState::Empty {
        Some(i)
    } else {
        probe_free(s, next_slot(i, s.len() as int), (fuel - 1) as nat)
    }
}

/// The value found for a key, 0 when it is not found.
pub open spec fn get_spec(s: Seq<MapEntry>, key: i64) -> i64 {
    match lookup_slot(s, key) {
        Some(i) => if s[i].state == SlotState::Live {
            s[i].value
        } else {
            0
        },
        None => 0,
    }
}

/// Whether a key is found.
pub open spec fn contains_spec(s: Seq<MapEntry>, key: i64) -> bool {
    lookup_slot(s, key) matches Some(i) && s[i].state == SlotState::Live
}

/// The slot contents of a key stored with a value.
pub open spec fn live_entry(key: i64, value: i64) -> MapEntry {
    MapEntry { key, value, hash: hash_of(key), state: SlotState::Live }
}

/// The table after storing a value without growing: in the slot that
/// holds the key, or else in the first free slot of its probe.
pub open spec fn insert_into(s: Seq<MapEntry>, key: i64, value: i64) -> Seq<MapEntry> {
    match lookup_slot(s, key) {
        Some(i) => if s[i].state == SlotState::Live {
            s.update(i, MapEntry { value, ..s[i] })
        } else {
            s.update(i, live_entry(key, value))
        },
        None => s,
    }
}

/// The table after placing one entry again while growing: an entry goes
/// to the first free slot of its probe; free slots and removal markers are
/// dropped.
pub open spec fn place_entry(t: Seq<MapEntry>, e: MapEntry) -> Seq<MapEntry> {
    if e.state == SlotState::Live {
        match probe_free(t, start_slot(hash_of(e.key), t.len() as int), t.len()) {
            Some(i) => t.update(i, live_entry(e.key, e.value)),
            None => t,
        }
    } else {
        t
    }
}

/// The table after placing the entries of `olds` again, in order.
pub open spec fn reinsert(table: Seq<MapEntry>, olds: Seq<MapEntry>) -> Seq<MapEntry>
    decreases olds.len(),
{
    if olds.len() == 0 {
        table
    } else {
        place_entry(reinsert(table, olds.drop_last()), olds.last())
    }
}

/// The table after growing: twice the slots, the entries placed again.
pub open spec fn grown(s: Seq<MapEntry>) -> Seq<MapEntry> {
    reinsert(empty_slots(2 * s.len()), s)
}

/// Whether storing into a table first grows it: three quarters or more of
/// its slots are taken, by entries or removal markers.
pub open spec fn needs_grow(s: Seq<MapEntry>) -> bool {
    used_count(s) * 4 >= s.len() * 3
}

/// The table after storing a value, growing first where needed.
pub open spec fn after_insert(s: Seq<MapEntry>, key: i64, value: i64) -> Seq<MapEntry> {
    if needs_grow(s) {
        insert_into(grown(s), key, value)
    } else {
        insert_into(s, key, value)
    }
}

/// A slot's contents with a removal marker.
pub open spec fn marked(e: MapEntry) -> MapEntry {
    MapEntry { state: SlotState::Removed, ..e }
}

/// The table after removing a key: the slot where it is found gets a
/// removal marker, its contents left as they were.
pub open spec fn after_remove(s: Seq<MapEntry>, key: i64) -> Seq<MapEntry> {
    match lookup_slot(s, key) {
        Some(i) => if s[i].state == SlotState::Live {
            s.update(i, marked(s[i]))
        } else {
            s
        },
        None => s,
    }
}

/// The keys of the entries, in slot order.
pub open spec fn keys_of(s: Seq<MapEntry>) -> Seq<i64>
    decreases s.len(),
{
    if s.len() == 0 {
        Seq::empty()
    } else if s.last().state == SlotState::Live {
        keys_of(s.drop_last()).push(s.last().key)
    } else {
        keys_of(s.drop_last())
    }
}

/// Every entry is where probing for its key stops: no free slot and no
/// other entry of the key comes before it. So each key has one entry.
#[verifier::opaque]
pub open spec fn map_inv(s: Seq<MapEntry>) -> bool {
    forall|q: int|
        0 <= q < s.len() && (#[trigger] s[q]).state == SlotState::Live ==> lookup_slot(
            s,
            s[q].key,
        ) == Some(q)
}

impl RuntimeHashMap {
    /// A well-formed map: one slot per unit of capacity, at least 16 slots,
    /// the counts of entries and of taken slots, a free slot always left,
    /// and every entry where probing for its key stops.
    pub open spec fn wf(&self) -> bool {
        &&& self.entries@.len() == self.capacity
        &&& self.capacity >= 16
        &&& self.length == live_count(self.entries@)
        &&& self.used == used_count(self.entries@)
        &&& self.used < self.capacity
        &&& map_inv(self.entries@)
    }
}

// ---------------------------------------------------------------------------
// Facts about tables and probes
// ---------------------------------------------------------------------------
/// The slot `j` steps after `i` in a table of `n` slots, for `j < n`.
pub open spec fn slot_after(i: int, j: int, n: int) -> int {
    if i + j < n {
        i + j
    } else {
        i + j - n
    }
}

proof fn lemma_count_bound(s: Seq<MapEntry>)
    ensures
        live_count(s) <= used_count(s) <= s.len(),
    decreases s.len(),
{
    if s.len() > 0 {
        lemma_count_bound(s.drop_last());
    }
}

proof fn lemma_count_update(s: Seq<MapEntry>, i: int, e: MapEntry)
    requires
        0 <= i < s.len(),
    ensures
        live_count(s.update(i, e)) + (if s[i].state == SlotState::Live { 1int } else { 0int })
            == live_count(s) + (if e.state == SlotState::Live { 1int } else { 0int }),
        used_count(s.update(i, e)) + (if s[i].state != SlotState::Empty { 1int } else { 0int })
            == used_count(s) + (if e.state != SlotState::Empty { 1int } else { 0int }),
    decreases s.len(),
{
    let t = s.update(i, e);
    if i == s.len() - 1 {
        assert(t.drop_last() =~= s.drop_last());
    } else {
        assert(t.drop_last() =~= s.drop_last().update(i, e));
        lemma_count_update(s.drop_last(), i, e);
    }
}

proof fn lemma_count_empty(n: nat)
    ensures
        live_count(empty_slots(n)) == 0,
        used_count(empty_slots(n)) == 0,
    decreases n,
{
    if n > 0 {
        assert(empty_slots(n).drop_last() =~= empty_slots((n - 1) as nat));
        lemma_count_empty((n - 1) as nat);
    }
}

proof fn lemma_free_slot_exists(s: Seq<MapEntry>)
    requires
        used_count(s) < s.len(),
    ensures
        exists|i: int| 0 <= i < s.len() && (#[trigger] s[i]).state == SlotState::Empty,
    decreases s.len(),
{
    if s.last().state != SlotState::Empty {
        lemma_free_slot_exists(s.drop_last());
        let i = choose|i: int| 0 <= i < s.drop_last().len() && (#[trigger] s.drop_last()[i]).state == SlotState::Empty;
        assert(s[i] == s.drop_last()[i]);
    } else {
        assert(s[s.len() - 1].state == SlotState::Empty);
    }
}

/// A probe that finds no stop has passed `fuel` slots that do not stop it.
proof fn lemma_probe_stop_none(s: Seq<MapEntry>, key: i64, i: int, fuel: nat)
    requires
        0 <= i < s.len(),
        fuel <= s.len(),
        probe_stop(s, key, i, fuel) is None,
    ensures
        forall|j: int| 0 <= j < fuel ==> !stops(#[trigger] s[slot_after(i, j, s.len() as int)], key),
    decreases fuel,
{
    if fuel > 0 {
        let n = s.len() as int;
        let i2 = next_slot(i, n);
        lemma_probe_stop_none(s, key, i2, (fuel - 1) as nat);
        assert forall|j: int| 0 <= j < fuel implies !stops(#[trigger] s[slot_after(i, j, n)], key) by {
            if j > 0 {
                assert(slot_after(i, j, n) == slot_after(i2, j - 1, n));
            }
        }
    }
}

/// Over the whole table, a probe stops wherever a slot is free.
proof fn lemma_probe_stop_some(s: Seq<MapEntry>, key: i64, i: int)
    requires
        0 <= i < s.len(),
        used_count(s) < s.len(),
    ensures
        probe_stop(s, key, i, s.len()) is Some,
{
    let n = s.len() as int;
    if probe_stop(s, key, i, s.len()) is None {
        lemma_probe_stop_none(s, key, i, s.len());
        lemma_free_slot_exists(s);
        let t = choose|t: int| 0 <= t < n && (#[trigger] s[t]).state == SlotState::Empty;
        let j = if t >= i { t - i } else { t + n - i };
        assert(slot_after(i, j, n) == t);
        assert(!stops(s[slot_after(i, j, n)], key));
    }
}

proof fn lemma_probe_stop_range(s: Seq<MapEntry>, key: i64, i: int, fuel: nat)
    requires
        0 <= i < s.len(),
    ensures
        probe_stop(s, key, i, fuel) matches Some(p) ==> 0 <= p < s.len() && stops(s[p], key),
    decreases fuel,
{
    if fuel > 0 {
        lemma_probe_stop_range(s, key, next_slot(i, s.len() as int), (fuel - 1) as nat);
    }
}

proof fn lemma_probe_free_none(s: Seq<MapEntry>, i: int, fuel: nat)
    requires
        0 <= i < s.len(),
        fuel <= s.len(),
        probe_free(s, i, fuel) is None,
    ensures
        forall|j: int| 0 <= j < fuel ==> (#[trigger] s[slot_after(i, j, s.len() as int)]).state != SlotState::Empty,
    decreases fuel,
{
    if fuel > 0 {
        let n = s.len() as int;
        let i2 = next_slot(i, n);
        lemma_probe_free_none(s, i2, (fuel - 1) as nat);
        assert forall|j: int| 0 <= j < fuel implies (#[trigger] s[slot_after(i, j, n)]).state != SlotState::Empty by {
            if j > 0 {
                assert(slot_after(i, j, n) == slot_after(i2, j - 1, n));
            }
        }
    }
}

proof fn lemma_probe_free_range(s: Seq<MapEntry>, i: int, fuel: nat)
    requires
        0 <= i < s.len(),
    ensures
        probe_free(s, i, fuel) matches Some(p) ==> 0 <= p < s.len() && s[p].state == SlotState::Empty,
    decreases fuel,
{
    if fuel > 0 {
        lemma_probe_free_range(s, next_slot(i, s.len() as int), (fuel - 1) as nat);
    }
}

proof fn lemma_probe_free_some(s: Seq<MapEntry>, i: int)
    requires
        0 <= i < s.len(),
        used_count(s) < s.len(),
    ensures
        probe_free(s, i, s.len()) matches Some(p) && 0 <= p < s.len() && s[p].state == SlotState::Empty,
{
    let n = s.len() as int;
    if probe_free(s, i, s.len()) is None {
        lemma_probe_free_none(s, i, s.len());
        lemma_free_slot_exists(s);
        let t = choose|t: int| 0 <= t < n && (#[trigger] s[t]).state == SlotState::Empty;
        let j = if t >= i { t - i } else { t + n - i };
        assert(slot_after(i, j, n) == t);
    }
    lemma_probe_free_range(s, i, s.len());
}

proof fn lemma_start_slot_range(hash: i64, cap: int)
    requires
        1 <= cap <= usize::MAX,
    ensures
        0 <= start_slot(hash, cap) < cap,
{
    let h = hash as u64;
    let m = (cap - 1) as u64;
    assert(h & m <= m) by (bit_vector);
}

/// Writing a slot where a probe stops, with contents that stop it too,
/// leaves the probe stopping there.
proof fn lemma_probe_stop_update(s: Seq<MapEntry>, key: i64, i: int, fuel: nat, p: int, x: MapEntry)
    requires
        0 <= i < s.len(),
        0 <= p < s.len(),
        probe_stop(s, key, i, fuel) == Some(p),
        stops(x, key),
    ensures
        probe_stop(s.update(p, x), key, i, fuel) == Some(p),
    decreases fuel,
{
    if i != p {
        lemma_probe_stop_update(s, key, next_slot(i, s.len() as int), (fuel - 1) as nat, p, x);
    }
}

/// Writing a slot that stops a probe but is not where it stops leaves
/// the probe stopping where it did.
proof fn lemma_probe_stop_elsewhere(s: Seq<MapEntry>, key: i64, i: int, fuel: nat, q: int, p: int, x: MapEntry)
    requires
        0 <= i < s.len(),
        0 <= p < s.len(),
        probe_stop(s, key, i, fuel) == Some(q),
        p != q,
        stops(s[p], key),
    ensures
        probe_stop(s.update(p, x), key, i, fuel) == Some(q),
    decreases fuel,
{
    if fuel > 0 && !stops(s[i], key) {
        lemma_probe_stop_elsewhere(s, key, next_slot(i, s.len() as int), (fuel - 1) as nat, q, p, x);
    }
}

/// Writing a slot with contents that stop a probe exactly when the old
/// contents did changes nothing for that probe.
proof fn lemma_probe_stop_same(s: Seq<MapEntry>, key: i64, i: int, fuel: nat, p: int, x: MapEntry)
    requires
        0 <= i < s.len(),
        0 <= p < s.len(),
        stops(x, key) == stops(s[p], key),
    ensures
        probe_stop(s.update(p, x), key, i, fuel) == probe_stop(s, key, i, fuel),
    decreases fuel,
{
    if fuel > 0 {
        lemma_probe_stop_same(s, key, next_slot(i, s.len() as int), (fuel - 1) as nat, p, x);
    }
}

/// Where no entry holds the key, probing for it stops at the first free
/// slot.
proof fn lemma_probe_stop_is_free(s: Seq<MapEntry>, key: i64, i: int, fuel: nat)
    requires
        0 <= i < s.len(),
        forall|q: int| 0 <= q < s.len() && (#[trigger] s[q]).state == SlotState::Live ==> s[q].key != key,
    ensures
        probe_stop(s, key, i, fuel) == probe_free(s, i, fuel),
    decreases fuel,
{
    if fuel > 0 {
        lemma_probe_stop_is_free(s, key, next_slot(i, s.len() as int), (fuel - 1) as nat);
    }
}

/// Under the invariant, one entry at most holds a key.
proof fn lemma_one_entry_per_key(s: Seq<MapEntry>, q1: int, q2: int)
    requires
        map_inv(s),
        0 <= q1 < s.len(),
        0 <= q2 < s.len(),
        s[q1].state == SlotState::Live,
        s[q2].state == SlotState::Live,
        s[q1].key == s[q2].key,
    ensures
        q1 == q2,
{
    reveal(map_inv);
    assert(lookup_slot(s, s[q1].key) == Some(q1));
    assert(lookup_slot(s, s[q2].key) == Some(q2));
}

/// Storing a new entry in the free slot where probing for its key stops
/// keeps the invariant.
proof fn lemma_inv_insert_new(s: Seq<MapEntry>, key: i64, p: int, x: MapEntry)
    requires
        map_inv(s),
        1 <= s.len() <= usize::MAX,
        lookup_slot(s, key) == Some(p),
        0 <= p < s.len(),
        s[p].state == SlotState::Empty,
        x.state == SlotState::Live,
        x.key == key,
    ensures
        map_inv(s.update(p, x)),
{
    reveal(map_inv);
    let t = s.update(p, x);
    assert forall|q: int| 0 <= q < t.len() && (#[trigger] t[q]).state == SlotState::Live implies lookup_slot(
        t,
        t[q].key,
    ) == Some(q) by {
        let k2 = t[q].key;
        let st = start_slot(hash_of(k2), s.len() as int);
        lemma_start_slot_range(hash_of(k2), s.len() as int);
        if q == p {
            lemma_probe_stop_update(s, key, st, s.len(), p, x);
        } else {
            assert(s[q] == t[q]);
            lemma_probe_stop_elsewhere(s, k2, st, s.len(), q, p, x);
        }
    }
}

/// Writing a slot with contents that stop the probe for a key exactly
/// when the old contents did leaves the lookup of that key as it was.
proof fn lemma_lookup_same(s: Seq<MapEntry>, p: int, x: MapEntry, k: i64)
    requires
        1 <= s.len() <= usize::MAX,
        0 <= p < s.len(),
        stops(x, k) == stops(s[p], k),
    ensures
        lookup_slot(s.update(p, x), k) == lookup_slot(s, k),
{
    lemma_start_slot_range(hash_of(k), s.len() as int);
    lemma_probe_stop_same(s, k, start_slot(hash_of(k), s.len() as int), s.len(), p, x);
}

/// Changing the value of an entry keeps the invariant.
proof fn lemma_inv_same_stops(s: Seq<MapEntry>, p: int, x: MapEntry)
    requires
        map_inv(s),
        1 <= s.len() <= usize::MAX,
        0 <= p < s.len(),
        s[p].state == SlotState::Live,
        x.state == SlotState::Live,
        x.key == s[p].key,
    ensures
        map_inv(s.update(p, x)),
{
    reveal(map_inv);
    let t = s.update(p, x);
    assert forall|q: int| 0 <= q < t.len() && (#[trigger] t[q]).state == SlotState::Live implies lookup_slot(
        t,
        t[q].key,
    ) == Some(q) by {
        lemma_lookup_same(s, p, x, t[q].key);
        if q != p {
            assert(s[q] == t[q]);
        }
    }
}

/// Putting a removal marker on an entry keeps the invariant.
proof fn lemma_inv_remove(s: Seq<MapEntry>, p: int)
    requires
        map_inv(s),
        1 <= s.len() <= usize::MAX,
        0 <= p < s.len(),
        s[p].state == SlotState::Live,
    ensures
        map_inv(s.update(p, marked(s[p]))),
{
    reveal(map_inv);
    let x = marked(s[p]);
    let t = s.update(p, x);
    assert forall|q: int| 0 <= q < t.len() && (#[trigger] t[q]).state == SlotState::Live implies lookup_slot(
        t,
        t[q].key,
    ) == Some(q) by {
        assert(q != p);
        assert(s[q] == t[q]);
        if t[q].key == s[p].key {
            lemma_one_entry_per_key(s, q, p);
        }
        lemma_lookup_same(s, p, x, t[q].key);
    }
}

proof fn lemma_inv_empty(n: nat)
    ensures
        map_inv(empty_slots(n)),
{
    reveal(map_inv);
}

// ---------------------------------------------------------------------------
// Probing
// ---------------------------------------------------------------------------
fn start_index(hash: i64, cap: usize) -> (r: usize)
    requires
        cap >= 1,
    ensures
        r == start_slot(hash, cap as int),
        r < cap,
{
    proof {
        lemma_start_slot_range(hash, cap as int);
    }
    ((hash as u64) & ((cap - 1) as u64)) as usize
}

fn next_index(i: usize, cap: usize) -> (r: usize)
    requires
        i < cap,
    ensures
        r == next_slot(i as int, cap as int),
        r < cap,
{
    if i + 1 < cap {
        i + 1
    } else {
        0
    }
}

fn stops_exec(e: &MapEntry, key: i64) -> (r: bool)
    ensures
        r == stops(*e, key),
{
    match e.state {
        SlotState::Empty => true,
        SlotState::Live => e.key == key,
        SlotState::Removed => false,
    }
}

/// The slot where probing for `key` stops.
fn find_slot(entries: &Vec<MapEntry>, key: i64) -> (r: Option<usize>)
    requires
        entries@.len() >= 1,
    ensures
        match lookup_slot(entries@, key) {
            Some(p) => r == Some(p as usize) && 0 <= p < entries@.len() && stops(entries@[p], key),
            None => r is None,
        },
{
    let cap = entries.len();
    let start = start_index(hash_i64(key), cap);
    let mut idx = start;
    let mut fuel = cap;
    proof {
        lemma_probe_stop_range(entries@, key, start as int, cap as nat);
    }
    while fuel > 0
        invariant
            cap == entries@.len(),
            idx < cap,
            fuel <= cap,
            lookup_slot(entries@, key) == probe_stop(entries@, key, idx as int, fuel as nat),
        decreases fuel,
    {
        if stops_exec(&entries[idx], key) {
            return Some(idx);
        }
        idx = next_index(idx, cap);
        fuel = fuel - 1;
    }
    None
}

/// The first free slot from `start`.
fn find_free(entries: &Vec<MapEntry>, start: usize) -> (r: usize)
    requires
        start < entries@.len(),
        used_count(entries@) < entries@.len(),
    ensures
        probe_free(entries@, start as int, entries@.len()) == Some(r as int),
        r < entries@.len(),
        entries@[r as int].state == SlotState::Empty,
{
    let cap = entries.len();
    proof {
        lemma_probe_free_some(entries@, start as int);
    }
    let mut idx = start;
    let mut fuel = cap;
    while fuel > 0
        invariant
            cap == entries@.len(),
            idx < cap,
            fuel <= cap,
            probe_free(entries@, start as int, cap as nat) == probe_free(entries@, idx as int, fuel as nat),
            probe_free(entries@, idx as int, fuel as nat) is Some,
        decreases fuel,
    {
        if entries[idx].state == SlotState::Empty {
            return idx;
        }
        idx = next_index(idx, cap);
        fuel = fuel - 1;
    }
    idx
}

// ---------------------------------------------------------------------------
// Growing
// ---------------------------------------------------------------------------
/// No two entries hold the same key.
pub open spec fn distinct_keys(s: Seq<MapEntry>) -> bool {
    forall|i: int, j: int|
        0 <= i < s.len() && 0 <= j < s.len() && i != j && (#[trigger] s[i]).state == SlotState::Live
            && (#[trigger] s[j]).state == SlotState::Live ==> s[i].key != s[j].key
}

proof fn lemma_inv_distinct(s: Seq<MapEntry>)
    requires
        map_inv(s),
    ensures
        distinct_keys(s),
{
    assert forall|i: int, j: int|
        0 <= i < s.len() && 0 <= j < s.len() && i != j && (#[trigger] s[i]).state == SlotState::Live
            && (#[trigger] s[j]).state == SlotState::Live implies s[i].key != s[j].key by {
        if s[i].key == s[j].key {
            lemma_one_entry_per_key(s, i, j);
        }
    }
}

/// Placing the entries of `olds` into a free table of `m` slots keeps the
/// invariant, leaves no marker, and keeps exactly the entries of `olds`.
proof fn lemma_reinsert(m: nat, olds: Seq<MapEntry>)
    requires
        olds.len() < m <= usize::MAX,
        distinct_keys(olds),
    ensures
        ({
            let t = reinsert(empty_slots(m), olds);
            &&& t.len() == m
            &&& used_count(t) == live_count(olds)
            &&& live_count(t) == live_count(olds)
            &&& map_inv(t)
            &&& forall|q: int| 0 <= q < t.len() && (#[trigger] t[q]).state == SlotState::Live ==> exists|i: int|
                0 <= i < olds.len() && (#[trigger] olds[i]).state == SlotState::Live && olds[i].key == t[q].key
        }),
    decreases olds.len(),
{
    if olds.len() == 0 {
        lemma_count_empty(m);
        lemma_inv_empty(m);
    } else {
        let before = olds.drop_last();
        assert forall|i: int, j: int|
            0 <= i < before.len() && 0 <= j < before.len() && i != j && (#[trigger] before[i]).state
                == SlotState::Live && (#[trigger] before[j]).state == SlotState::Live implies before[i].key
            != before[j].key by {
            assert(before[i] == olds[i] && before[j] == olds[j]);
        }
        lemma_reinsert(m, before);
        let t0 = reinsert(empty_slots(m), before);
        let e = olds.last();
        lemma_count_bound(before);
        if e.state == SlotState::Live {
            let k = e.key;
            let n = olds.len() - 1;
            assert forall|q: int| 0 <= q < t0.len() && (#[trigger] t0[q]).state == SlotState::Live implies t0[q].key
                != k by {
                let i = choose|i: int|
                    0 <= i < before.len() && (#[trigger] before[i]).state == SlotState::Live && before[i].key == t0[q].key;
                assert(olds[i] == before[i]);
                assert(olds[n] == e);
            }
            let st = start_slot(hash_of(k), m as int);
            lemma_start_slot_range(hash_of(k), m as int);
            lemma_probe_stop_is_free(t0, k, st, m);
            lemma_probe_free_some(t0, st);
            let p = probe_free(t0, st, m)->0;
            let x = live_entry(k, e.value);
            lemma_inv_insert_new(t0, k, p, x);
            lemma_count_update(t0, p, x);
            let t = t0.update(p, x);
            assert forall|q: int| 0 <= q < t.len() && (#[trigger] t[q]).state == SlotState::Live implies exists|i: int|
                0 <= i < olds.len() && (#[trigger] olds[i]).state == SlotState::Live && olds[i].key == t[q].key by {
                if q == p {
                    assert(olds[n] == e);
                } else {
                    assert(t[q] == t0[q]);
                    let i = choose|i: int|
                        0 <= i < before.len() && (#[trigger] before[i]).state == SlotState::Live && before[i].key == t0[q].key;
                    assert(olds[i] == before[i]);
                }
            }
        } else {
            let t = t0;
            assert forall|q: int| 0 <= q < t.len() && (#[trigger] t[q]).state == SlotState::Live implies exists|i: int|
                0 <= i < olds.len() && (#[trigger] olds[i]).state == SlotState::Live && olds[i].key == t[q].key by {
                let i = choose|i: int|
                    0 <= i < before.len() && (#[trigger] before[i]).state == SlotState::Live && before[i].key == t0[q].key;
                assert(olds[i] == before[i]);
            }
        }
    }
}

/// Whether a table has an entry of this key with this value.
pub open spec fn holds(s: Seq<MapEntry>, k: i64, v: i64) -> bool {
    exists|q: int| 0 <= q < s.len() && (#[trigger] s[q]).state == SlotState::Live && s[q].key == k && s[q].value == v
}

proof fn lemma_holds_update(s: Seq<MapEntry>, p: int, x: MapEntry, k: i64, v: i64)
    requires
        0 <= p < s.len(),
        s[p].state != SlotState::Live,
        x.state == SlotState::Live,
    ensures
        holds(s.update(p, x), k, v) == (holds(s, k, v) || (x.key == k && x.value == v)),
{
    let t = s.update(p, x);
    if holds(t, k, v) {
        let q = choose|q: int| 0 <= q < t.len() && (#[trigger] t[q]).state == SlotState::Live && t[q].key == k && t[q].value == v;
        if q != p {
            assert(s[q] == t[q]);
        }
    }
    if holds(s, k, v) {
        let q = choose|q: int| 0 <= q < s.len() && (#[trigger] s[q]).state == SlotState::Live && s[q].key == k && s[q].value == v;
        assert(q != p);
        assert(t[q] == s[q]);
    }
    if x.key == k && x.value == v {
        assert(t[p] == x);
    }
}

proof fn lemma_holds_push(olds: Seq<MapEntry>, k: i64, v: i64)
    requires
        olds.len() > 0,
    ensures
        holds(olds, k, v) == (holds(olds.drop_last(), k, v) || (olds.last().state == SlotState::Live
            && olds.last().key == k && olds.last().value == v)),
{
    let b = olds.drop_last();
    if holds(olds, k, v) {
        let q = choose|q: int| 0 <= q < olds.len() && (#[trigger] olds[q]).state == SlotState::Live && olds[q].key == k && olds[q].value == v;
        if q < olds.len() - 1 {
            assert(b[q] == olds[q]);
        }
    }
    if holds(b, k, v) {
        let q = choose|q: int| 0 <= q < b.len() && (#[trigger] b[q]).state == SlotState::Live && b[q].key == k && b[q].value == v;
        assert(olds[q] == b[q]);
    }
    if olds.last().state == SlotState::Live && olds.last().key == k && olds.last().value == v {
        assert(olds[olds.len() - 1] == olds.last());
    }
}

/// Growing keeps exactly the entries of the table: each key with its value.
proof fn lemma_reinsert_entries(m: nat, olds: Seq<MapEntry>)
    requires
        olds.len() < m <= usize::MAX,
        distinct_keys(olds),
    ensures
        forall|k: i64, v: i64| #[trigger] holds(reinsert(empty_slots(m), olds), k, v) == holds(olds, k, v),
    decreases olds.len(),
{
    if olds.len() > 0 {
        let before = olds.drop_last();
        assert forall|i: int, j: int|
            0 <= i < before.len() && 0 <= j < before.len() && i != j && (#[trigger] before[i]).state
                == SlotState::Live && (#[trigger] before[j]).state == SlotState::Live implies before[i].key
            != before[j].key by {
            assert(before[i] == olds[i] && before[j] == olds[j]);
        }
        lemma_reinsert_entries(m, before);
        lemma_reinsert(m, before);
        lemma_count_bound(before);
        let t0 = reinsert(empty_slots(m), before);
        let e = olds.last();
        assert forall|k: i64, v: i64| #[trigger] holds(reinsert(empty_slots(m), olds), k, v) == holds(olds, k, v) by {
            lemma_holds_push(olds, k, v);
            if e.state == SlotState::Live {
                let st = start_slot(hash_of(e.key), m as int);
                lemma_start_slot_range(hash_of(e.key), m as int);
                lemma_probe_free_some(t0, st);
                let p = probe_free(t0, st, m)->0;
                lemma_holds_update(t0, p, live_entry(e.key, e.value), k, v);
            }
        }
    } else {
        assert forall|k: i64, v: i64| #[trigger] holds(reinsert(empty_slots(m), olds), k, v) == holds(olds, k, v) by {
            if holds(empty_slots(m), k, v) {
                let q = choose|q: int| 0 <= q < empty_slots(m).len() && (#[trigger] empty_slots(m)[q]).state == SlotState::Live && empty_slots(m)[q].key == k && empty_slots(m)[q].value == v;
            }
        }
    }
}

/// Under the invariant, a key with an entry is found with its value, and a
/// key without one is not found and reads 0.
proof fn lemma_find_by_entries(s: Seq<MapEntry>, k: i64)
    requires
        map_inv(s),
        1 <= s.len() <= usize::MAX,
    ensures
        forall|v: i64| #[trigger] holds(s, k, v) ==> contains_spec(s, k) && get_spec(s, k) == v,
        (forall|v: i64| !#[trigger] holds(s, k, v)) ==> !contains_spec(s, k) && get_spec(s, k) == 0,
{
    reveal(map_inv);
    assert forall|v: i64| #[trigger] holds(s, k, v) implies contains_spec(s, k) && get_spec(s, k) == v by {
        let q = choose|q: int| 0 <= q < s.len() && (#[trigger] s[q]).state == SlotState::Live && s[q].key == k && s[q].value == v;
        assert(lookup_slot(s, s[q].key) == Some(q));
    }
    let st = start_slot(hash_of(k), s.len() as int);
    lemma_start_slot_range(hash_of(k), s.len() as int);
    lemma_probe_stop_range(s, k, st, s.len());
    if let Some(q) = lookup_slot(s, k) {
        if s[q].state == SlotState::Live {
            assert(s[q].key == k);
            assert(holds(s, k, s[q].value));
        }
    }
}

// ---------------------------------------------------------------------------
// The map
// ---------------------------------------------------------------------------
fn empty_table(n: usize) -> (r: Vec<MapEntry>)
    ensures
        r@ == empty_slots(n as nat),
{
    let mut v: Vec<MapEntry> = Vec::new();
    for i in 0..n
        invariant
            v@ == empty_slots(i as nat),
    {
        v.push(MapEntry { key: 0, value: 0, hash: 0, state: SlotState::Empty });
        assert(v@ =~= empty_slots((i + 1) as nat));
    }
    v
}

impl RuntimeHashMap {
    /// An empty map of 16 slots.
    pub fn new() -> (r: Self)
        ensures
            r.wf(),
            r.entries@ == empty_slots(16),
            r.capacity == 16,
    {
        let entries = empty_table(16);
        proof {
            lemma_count_empty(16);
            lemma_inv_empty(16);
        }
        RuntimeHashMap { capacity: 16, length: 0, used: 0, entries }
    }

    /// The value stored for a key, 0 when it is not found.
    pub fn get(&self, key: i64) -> (r: i64)
        requires
            self.wf(),
        ensures
            r == get_spec(self.entries@, key),
    {
        match find_slot(&self.entries, key) {
            Some(i) => if self.entries[i].state == SlotState::Live {
                self.entries[i].value
            } else {
                0
            },
            None => 0,
        }
    }

    /// Whether a key is found.
    pub fn contains(&self, key: i64) -> (r: bool)
        requires
            self.wf(),
        ensures
            r == contains_spec(self.entries@, key),
    {
        match find_slot(&self.entries, key) {
            Some(i) => self.entries[i].state == SlotState::Live,
            None => false,
        }
    }

    /// How many entries the map has.
    pub fn len(&self) -> (r: usize)
        requires
            self.wf(),
        ensures
            r == live_count(self.entries@),
    {
        self.length
    }

    /// Frees every slot and clears its contents; the capacity stays.
    pub fn clear(&mut self)
        requires
            old(self).wf(),
        ensures
            final(self).wf(),
            final(self).capacity == old(self).capacity,
            final(self).entries@ == empty_slots(old(self).capacity as nat),
    {
        self.entries = empty_table(self.capacity);
        self.length = 0;
        self.used = 0;
        proof {
            lemma_count_empty(self.capacity as nat);
            lemma_inv_empty(self.capacity as nat);
        }
    }

    /// The keys of the entries, in slot order.
    pub fn keys(&self) -> (r: Vec<i64>)
        requires
            self.wf(),
        ensures
            r@ == keys_of(self.entries@),
    {
        let mut r: Vec<i64> = Vec::new();
        for i in 0..self.entries.len()
            invariant
                r@ == keys_of(self.entries@.take(i as int)),
        {
            assert(self.entries@.take(i + 1).drop_last() =~= self.entries@.take(i as int));
            if self.entries[i].state == SlotState::Live {
                r.push(self.entries[i].key);
            }
        }
        assert(self.entries@.take(self.entries@.len() as int) =~= self.entries@);
        r
    }

    /// Removes a key: its slot gets
    /// a removal marker. Whether the key was there.
    pub fn remove(&mut self, key: i64) -> (r: bool)
        requires
            old(self).wf(),
        ensures
            final(self).wf(),
            final(self).capacity == old(self).capacity,
            r == contains_spec(old(self).entries@, key),
            final(self).entries@ == after_remove(old(self).entries@, key),
    {
        match find_slot(&self.entries, key) {
            Some(i) => {
                if self.entries[i].state == SlotState::Live {
                    let e = self.entries[i];
                    let x = MapEntry { state: SlotState::Removed, ..e };
                    proof {
                        assert(x == marked(e));
                        lemma_count_update(self.entries@, i as int, x);
                        lemma_inv_remove(self.entries@, i as int);
                    }
                    self.entries.set(i, x);
                    self.length = self.length - 1;
                    true
                } else {
                    false
                }
            },
            None => false,
        }
    }

    /// Doubles the table and places its entries again, in slot order,
    /// dropping the removal markers.
    /// Fails, leaving the map as it is, when the doubled size does not fit
    /// in memory's address range.
    fn grow(&mut self) -> (r: bool)
        requires
            old(self).wf(),
        ensures
            r == (old(self).capacity <= usize::MAX / 2),
            r ==> final(self).entries@ == grown(old(self).entries@),
            r ==> final(self).capacity == 2 * old(self).capacity,
            r ==> final(self).length == old(self).length,
            r ==> final(self).used == old(self).length,
            !r ==> *final(self) == *old(self),
            final(self).wf(),
    {
        if self.capacity > usize::MAX / 2 {
            return false;
        }
        let old_cap = self.capacity;
        let new_cap = old_cap * 2;
        let mut table = empty_table(new_cap);
        let ghost olds = self.entries@;
        proof {
            lemma_inv_distinct(olds);
        }
        let mut placed: usize = 0;
        for i in 0..old_cap
            invariant
                old_cap == olds.len(),
                new_cap == 2 * old_cap,
                olds == self.entries@,
                distinct_keys(olds),
                table@ == reinsert(empty_slots(new_cap as nat), olds.take(i as int)),
                table@.len() == new_cap,
                placed == live_count(olds.take(i as int)),
                placed <= i,
        {
            assert(olds.take(i + 1).drop_last() =~= olds.take(i as int));
            proof {
                let pre = olds.take(i as int);
                assert forall|a: int, b: int|
                    0 <= a < pre.len() && 0 <= b < pre.len() && a != b && (#[trigger] pre[a]).state == SlotState::Live
                        && (#[trigger] pre[b]).state == SlotState::Live implies pre[a].key != pre[b].key by {
                    assert(pre[a] == olds[a] && pre[b] == olds[b]);
                }
                lemma_reinsert(new_cap as nat, pre);
                lemma_count_bound(pre);
            }
            let e = self.entries[i];
            assert(olds.take(i + 1).last() == e);
            if e.state == SlotState::Live {
                let h = hash_i64(e.key);
                let st = start_index(h, new_cap);
                let slot = find_free(&table, st);
                table.set(slot, MapEntry { key: e.key, value: e.value, hash: h, state: SlotState::Live });
                placed = placed + 1;
            }
            assert(table@ == reinsert(empty_slots(new_cap as nat), olds.take(i + 1)));
        }
        assert(olds.take(old_cap as int) =~= olds);
        proof {
            lemma_reinsert(new_cap as nat, olds);
            lemma_count_bound(olds);
        }
        self.capacity = new_cap;
        self.entries = table;
        self.length = placed;
        self.used = placed;
        true
    }

    /// Stores a value for a key:
    /// grows the table first when three quarters or more of its slots are
    /// taken, then writes the value into the entry of the key, or else a new
    /// entry into the first free slot of the key's probe. Fails, leaving the
    /// map as it is, only when the table would need to grow and cannot.
    #[verifier::rlimit(50)]
    pub fn insert(&mut self, key: i64, value: i64) -> (r: bool)
        requires
            old(self).wf(),
        ensures
            final(self).wf(),
            r == !(needs_grow(old(self).entries@) && old(self).capacity > usize::MAX / 2),
            r ==> final(self).entries@ == after_insert(old(self).entries@, key, value),
            !r ==> *final(self) == *old(self),
    {
        let ghost olds = self.entries@;
        proof {
            lemma_count_bound(olds);
        }
        if (self.used as u128) * 4 >= (self.capacity as u128) * 3 {
            if !self.grow() {
                return false;
            }
        }
        let ghost pre = self.entries@;
        assert(pre == (if needs_grow(olds) { grown(olds) } else { olds }));
        assert(self.used * 4 < self.capacity * 3);
        proof {
            lemma_count_bound(pre);
            lemma_start_slot_range(hash_of(key), self.capacity as int);
            lemma_probe_stop_some(pre, key, start_slot(hash_of(key), pre.len() as int));
        }
        match find_slot(&self.entries, key) {
            Some(i) => {
                let e = self.entries[i];
                if e.state == SlotState::Live {
                    let x = MapEntry { value, ..e };
                    proof {
                        lemma_count_update(pre, i as int, x);
                        lemma_inv_same_stops(pre, i as int, x);
                    }
                    self.entries.set(i, x);
                } else {
                    let h = hash_i64(key);
                    let x = MapEntry { key, value, hash: h, state: SlotState::Live };
                    proof {
                        assert(x == live_entry(key, value));
                        lemma_count_update(pre, i as int, x);
                        lemma_inv_insert_new(pre, key, i as int, x);
                    }
                    self.entries.set(i, x);
                    self.length = self.length + 1;
                    self.used = self.used + 1;
                }
                true
            },
            None => false,
        }
    }
}

// ---------------------------------------------------------------------------
// Laws
// ---------------------------------------------------------------------------
/// In a table of free slots, no key is found and every lookup gives 0.
pub proof fn lemma_empty_table_finds_nothing(n: nat, key: i64)
    requires
        1 <= n <= usize::MAX,
    ensures
        !contains_spec(empty_slots(n), key),
        get_spec(empty_slots(n), key) == 0,
{
    let s = empty_slots(n);
    lemma_start_slot_range(hash_of(key), n as int);
    lemma_probe_stop_range(s, key, start_slot(hash_of(key), n as int), n);
}

/// After storing a value for a key, looking the key up finds that value.
pub proof fn lemma_get_after_insert(s: Seq<MapEntry>, key: i64, value: i64)
    requires
        1 <= s.len(),
        used_count(s) < s.len(),
        2 * s.len() <= usize::MAX,
        map_inv(s),
    ensures
        contains_spec(after_insert(s, key, value), key),
        get_spec(after_insert(s, key, value), key) == value,
{
    let t = if needs_grow(s) { grown(s) } else { s };
    lemma_count_bound(s);
    if needs_grow(s) {
        lemma_inv_distinct(s);
        lemma_reinsert(2 * s.len(), s);
    }
    assert(used_count(t) < t.len());
    let st = start_slot(hash_of(key), t.len() as int);
    lemma_start_slot_range(hash_of(key), t.len() as int);
    lemma_probe_stop_some(t, key, st);
    lemma_probe_stop_range(t, key, st, t.len());
    let p = lookup_slot(t, key)->0;
    if t[p].state == SlotState::Live {
        lemma_probe_stop_update(t, key, st, t.len(), p, MapEntry { value, ..t[p] });
    } else {
        lemma_probe_stop_update(t, key, st, t.len(), p, live_entry(key, value));
    }
}

/// Removing a key leaves every other key as it was: found or not, and
/// with the same value.
pub proof fn lemma_remove_keeps_others(s: Seq<MapEntry>, key: i64, other: i64)
    requires
        1 <= s.len() <= usize::MAX,
        other != key,
    ensures
        contains_spec(after_remove(s, key), other) == contains_spec(s, other),
        get_spec(after_remove(s, key), other) == get_spec(s, other),
{
    let st = start_slot(hash_of(key), s.len() as int);
    lemma_start_slot_range(hash_of(key), s.len() as int);
    lemma_probe_stop_range(s, key, st, s.len());
    if let Some(p) = lookup_slot(s, key) {
        if s[p].state == SlotState::Live {
            lemma_lookup_same(s, p, marked(s[p]), other);
            let so = start_slot(hash_of(other), s.len() as int);
            lemma_start_slot_range(hash_of(other), s.len() as int);
            lemma_probe_stop_range(s, other, so, s.len());
            if let Some(q) = lookup_slot(s, other) {
                assert(q != p);
            }
        }
    }
}

/// After removing a key, the key is not found.
pub proof fn lemma_absent_after_remove(s: Seq<MapEntry>, key: i64)
    requires
        1 <= s.len() <= usize::MAX,
        map_inv(s),
    ensures
        !contains_spec(after_remove(s, key), key),
{
    let st = start_slot(hash_of(key), s.len() as int);
    lemma_start_slot_range(hash_of(key), s.len() as int);
    lemma_probe_stop_range(s, key, st, s.len());
    if let Some(p) = lookup_slot(s, key) {
        if s[p].state == SlotState::Live {
            let t = s.update(p, marked(s[p]));
            lemma_probe_stop_range(t, key, st, s.len());
            if let Some(q) = lookup_slot(t, key) {
                if t[q].state == SlotState::Live {
                    assert(q != p);
                    assert(t[q] == s[q]);
                    lemma_one_entry_per_key(s, q, p);
                }
            }
        }
    }
}

/// The keys listed are one per entry.
pub proof fn lemma_keys_count(s: Seq<MapEntry>)
    ensures
        keys_of(s).len() == live_count(s),
    decreases s.len(),
{
    if s.len() > 0 {
        lemma_keys_count(s.drop_last());
    }
}

/// Storing a value for one key leaves every other key as it was: found or
/// not, and with the same value.
pub proof fn lemma_insert_keeps_others(s: Seq<MapEntry>, key: i64, value: i64, other: i64)
    requires
        1 <= s.len(),
        used_count(s) < s.len(),
        2 * s.len() <= usize::MAX,
        map_inv(s),
        other != key,
    ensures
        contains_spec(after_insert(s, key, value), other) == contains_spec(s, other),
        get_spec(after_insert(s, key, value), other) == get_spec(s, other),
{
    let t = if needs_grow(s) { grown(s) } else { s };
    lemma_count_bound(s);
    if needs_grow(s) {
        lemma_inv_distinct(s);
        lemma_reinsert(2 * s.len(), s);
        lemma_reinsert_entries(2 * s.len(), s);
    }
    assert(map_inv(t) && used_count(t) < t.len());
    assert(forall|v: i64| #[trigger] holds(t, other, v) == holds(s, other, v));
    let st = start_slot(hash_of(key), t.len() as int);
    lemma_start_slot_range(hash_of(key), t.len() as int);
    lemma_probe_stop_some(t, key, st);
    lemma_probe_stop_range(t, key, st, t.len());
    let p = lookup_slot(t, key)->0;
    let t2 = after_insert(s, key, value);
    if t[p].state == SlotState::Live {
        let x = MapEntry { value, ..t[p] };
        assert(t2 == t.update(p, x));
        lemma_inv_same_stops(t, p, x);
        assert forall|v: i64| #[trigger] holds(t2, other, v) == holds(t, other, v) by {
            if holds(t2, other, v) {
                let q = choose|q: int| 0 <= q < t2.len() && (#[trigger] t2[q]).state == SlotState::Live && t2[q].key == other && t2[q].value == v;
                assert(q != p);
                assert(t[q] == t2[q]);
            }
            if holds(t, other, v) {
                let q = choose|q: int| 0 <= q < t.len() && (#[trigger] t[q]).state == SlotState::Live && t[q].key == other && t[q].value == v;
                assert(q != p);
                assert(t2[q] == t[q]);
            }
        }
    } else {
        let x = live_entry(key, value);
        assert(t2 == t.update(p, x));
        lemma_inv_insert_new(t, key, p, x);
        assert forall|v: i64| #[trigger] holds(t2, other, v) == holds(t, other, v) by {
            lemma_holds_update(t, p, x, other, v);
        }
    }
    assert(map_inv(t2));
    lemma_find_by_entries(s, other);
    lemma_find_by_entries(t2, other);
    if exists|v: i64| #[trigger] holds(s, other, v) {
        let v = choose|v: i64| #[trigger] holds(s, other, v);
        assert(holds(t2, other, v));
    } else {
        assert forall|v: i64| !#[trigger] holds(t2, other, v) by {
            assert(!holds(s, other, v));
        }
    }
}

/// Storing a value for a key adds one entry when the key was not found
/// and none when it was; removing a key takes one entry away when it was
/// found and none otherwise.
pub proof fn lemma_len_after_insert_remove(s: Seq<MapEntry>, key: i64, value: i64)
    requires
        1 <= s.len(),
        used_count(s) < s.len(),
        2 * s.len() <= usize::MAX,
        map_inv(s),
    ensures
        live_count(after_insert(s, key, value)) == live_count(s) + if contains_spec(s, key) { 0nat } else { 1nat },
        live_count(after_remove(s, key)) + (if contains_spec(s, key) { 1nat } else { 0nat }) == live_count(s),
{
    let t = if needs_grow(s) { grown(s) } else { s };
    lemma_count_bound(s);
    if needs_grow(s) {
        lemma_inv_distinct(s);
        lemma_reinsert(2 * s.len(), s);
        lemma_reinsert_entries(2 * s.len(), s);
    }
    let st = start_slot(hash_of(key), t.len() as int);
    lemma_start_slot_range(hash_of(key), t.len() as int);
    lemma_probe_stop_some(t, key, st);
    lemma_probe_stop_range(t, key, st, t.len());
    let p = lookup_slot(t, key)->0;
    lemma_find_by_entries(s, key);
    lemma_find_by_entries(t, key);
    // Whether the key is found is the same in the grown table.
    if exists|v: i64| #[trigger] holds(s, key, v) {
        let v = choose|v: i64| #[trigger] holds(s, key, v);
        assert(holds(t, key, v));
    } else {
        assert forall|v: i64| !#[trigger] holds(t, key, v) by {
            assert(!holds(s, key, v));
        }
    }
    assert(contains_spec(t, key) == contains_spec(s, key));
    if t[p].state == SlotState::Live {
        lemma_count_update(t, p, MapEntry { value, ..t[p] });
    } else {
        lemma_count_update(t, p, live_entry(key, value));
    }
    let so = start_slot(hash_of(key), s.len() as int);
    lemma_start_slot_range(hash_of(key), s.len() as int);
    lemma_probe_stop_range(s, key, so, s.len());
    if let Some(q) = lookup_slot(s, key) {
        if s[q].state == SlotState::Live {
            lemma_count_update(s, q, marked(s[q]));
        }
    }
}

} // verus!
