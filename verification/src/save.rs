//! World persistence: a compact little-endian binary save format holding the
//! seed, time, player state, inventory, block edits, and container contents.
//! Floating-point values are held and stored as their `f32` bit patterns;
//! reading and writing the file itself is the caller's.

use vstd::prelude::*;
use crate::blocks;
use crate::blocks::Block;
use crate::codec;
use crate::items;
use crate::items::{FurnaceState, Item, ItemStack};
use crate::inventory::INV_SIZE;

verus! {

/// First four bytes of every save ("MRS5").
pub const MAGIC: u32 = 0x4D52_5335;

/// Slots of a chest.
pub const CHEST_SLOTS: usize = 27;

/// Armor slots of the player.
pub const ARMOR_SLOTS: usize = 4;

/// Everything a save file holds.
pub struct SaveData {
    pub seed: u32,
    pub day_t: u32,
    pub player_pos: [u32; 3],
    pub yaw: u32,
    pub pitch: u32,
    pub health: u32,
    pub hunger: u32,
    pub fly: bool,
    pub creative: bool,
    pub dim: u8,
    pub xp: u32,
    pub dragon_defeated: bool,
    pub inventory: Vec<Option<ItemStack>>,
    pub armor: Vec<Option<ItemStack>>,
    pub crops: Vec<((i32, i32, i32), u32)>,
    /// (dimension, x, y, z, block)
    pub edits: Vec<(u8, i32, i32, i32, Block)>,
    pub furnaces: Vec<((i32, i32, i32), FurnaceState)>,
    pub chests: Vec<((i32, i32, i32), Vec<Option<ItemStack>>)>,
    pub saplings: Vec<((i32, i32, i32), u32)>,
}

/// A save with its lists as sequences.
pub struct SaveView {
    pub seed: u32,
    pub day_t: u32,
    pub player_pos: [u32; 3],
    pub yaw: u32,
    pub pitch: u32,
    pub health: u32,
    pub hunger: u32,
    pub fly: bool,
    pub creative: bool,
    pub dim: u8,
    pub xp: u32,
    pub dragon_defeated: bool,
    pub inventory: Seq<Option<ItemStack>>,
    pub armor: Seq<Option<ItemStack>>,
    pub crops: Seq<((i32, i32, i32), u32)>,
    pub edits: Seq<(u8, i32, i32, i32, Block)>,
    pub furnaces: Seq<((i32, i32, i32), FurnaceState)>,
    pub chests: Seq<((i32, i32, i32), Seq<Option<ItemStack>>)>,
    pub saplings: Seq<((i32, i32, i32), u32)>,
}

impl View for SaveData {
    type V = SaveView;

    open spec fn view(&self) -> SaveView {
        SaveView {
            seed: self.seed,
            day_t: self.day_t,
            player_pos: self.player_pos,
            yaw: self.yaw,
            pitch: self.pitch,
            health: self.health,
            hunger: self.hunger,
            fly: self.fly,
            creative: self.creative,
            dim: self.dim,
            xp: self.xp,
            dragon_defeated: self.dragon_defeated,
            inventory: self.inventory@,
            armor: self.armor@,
            crops: self.crops@,
            edits: self.edits@,
            furnaces: self.furnaces@,
            chests: self.chests@.map_values(|c: ((i32, i32, i32), Vec<Option<ItemStack>>)| (c.0, c.1@)),
            saplings: self.saplings@,
        }
    }
}

/// The slot counts a save has: a full inventory, four armor slots, and
/// full chests.
pub open spec fn save_wf(d: SaveView) -> bool {
    &&& d.inventory.len() == INV_SIZE
    &&& d.armor.len() == ARMOR_SLOTS
    &&& forall|k: int| 0 <= k < d.chests.len() ==> (#[trigger] d.chests[k]).1.len() == CHEST_SLOTS
}

/// Lists short enough for their 32-bit counts.
pub open spec fn save_counts_fit(d: SaveView) -> bool {
    &&& d.crops.len() <= u32::MAX
    &&& d.edits.len() <= u32::MAX
    &&& d.furnaces.len() <= u32::MAX
    &&& d.chests.len() <= u32::MAX
    &&& d.saplings.len() <= u32::MAX
}

// ---------------------------------------------------------------------------
// The byte layout.
// ---------------------------------------------------------------------------

/// Records laid end to end.
pub open spec fn flat<T>(xs: Seq<T>, f: spec_fn(T) -> Seq<u8>) -> Seq<u8>
    decreases xs.len(),
{
    if xs.len() == 0 {
        Seq::empty()
    } else {
        flat(xs.drop_last(), f) + f(xs.last())
    }
}

/// A slot: item id (`u16::MAX` for empty), count, enchantment level and
/// kind, durability used.
pub open spec fn stack_bytes(o: Option<ItemStack>) -> Seq<u8> {
    match o {
        Some(st) => codec::u16_le(items::item_id(st.item)) + codec::u32_le(st.count) + seq![st.ench, st.ench_kind]
            + codec::u16_le(st.dura),
        None => codec::u16_le(0xFFFF) + codec::u32_le(0) + seq![0u8, 0u8] + codec::u16_le(0),
    }
}

pub open spec fn stack_enc() -> spec_fn(Option<ItemStack>) -> Seq<u8> {
    |o: Option<ItemStack>| stack_bytes(o)
}

pub open spec fn pos_bytes(p: (i32, i32, i32)) -> Seq<u8> {
    codec::u32_le(p.0 as u32) + codec::u32_le(p.1 as u32) + codec::u32_le(p.2 as u32)
}

/// A crop or sapling: its position and its growth timer.
pub open spec fn timed_bytes(t: ((i32, i32, i32), u32)) -> Seq<u8> {
    pos_bytes(t.0) + codec::u32_le(t.1)
}

pub open spec fn timed_enc() -> spec_fn(((i32, i32, i32), u32)) -> Seq<u8> {
    |t: ((i32, i32, i32), u32)| timed_bytes(t)
}

/// A block edit: dimension, position, block id.
pub open spec fn edit_bytes(e: (u8, i32, i32, i32, Block)) -> Seq<u8> {
    seq![e.0] + pos_bytes((e.1, e.2, e.3)) + seq![blocks::block_id(e.4)]
}

pub open spec fn edit_enc() -> spec_fn((u8, i32, i32, i32, Block)) -> Seq<u8> {
    |e: (u8, i32, i32, i32, Block)| edit_bytes(e)
}

/// A furnace: position, its three slots, its three timers.
pub open spec fn furnace_bytes(e: ((i32, i32, i32), FurnaceState)) -> Seq<u8> {
    pos_bytes(e.0) + stack_bytes(e.1.input) + stack_bytes(e.1.fuel) + stack_bytes(e.1.output)
        + codec::u32_le(e.1.burn_left) + codec::u32_le(e.1.burn_total) + codec::u32_le(e.1.cook)
}

pub open spec fn furnace_enc() -> spec_fn(((i32, i32, i32), FurnaceState)) -> Seq<u8> {
    |e: ((i32, i32, i32), FurnaceState)| furnace_bytes(e)
}

/// A chest: position, then its slots.
pub open spec fn chest_bytes(c: ((i32, i32, i32), Seq<Option<ItemStack>>)) -> Seq<u8> {
    pos_bytes(c.0) + flat(c.1, stack_enc())
}

pub open spec fn chest_enc() -> spec_fn(((i32, i32, i32), Seq<Option<ItemStack>>)) -> Seq<u8> {
    |c: ((i32, i32, i32), Seq<Option<ItemStack>>)| chest_bytes(c)
}

/// Magic, seed, time, position, view angles, health, hunger, the flags,
/// dimension and experience.
pub open spec fn header_bytes(d: SaveView) -> Seq<u8> {
    codec::u32_le(MAGIC) + codec::u32_le(d.seed) + codec::u32_le(d.day_t) + codec::u32_le(d.player_pos[0])
        + codec::u32_le(d.player_pos[1]) + codec::u32_le(d.player_pos[2]) + codec::u32_le(d.yaw)
        + codec::u32_le(d.pitch) + codec::u32_le(d.health) + codec::u32_le(d.hunger)
        + seq![if d.fly { 1u8 } else { 0u8 }, if d.creative { 1u8 } else { 0u8 }, d.dim]
        + codec::u32_le(d.xp) + seq![if d.dragon_defeated { 1u8 } else { 0u8 }]
}

/// The whole file: header, inventory, armor, then each list with its count
/// in front.
#[verifier::opaque]
pub open spec fn save_bytes(d: SaveView) -> Seq<u8> {
    header_bytes(d) + flat(d.inventory, stack_enc()) + flat(d.armor, stack_enc())
        + codec::u32_le(d.crops.len() as u32) + flat(d.crops, timed_enc())
        + codec::u32_le(d.edits.len() as u32) + flat(d.edits, edit_enc())
        + codec::u32_le(d.furnaces.len() as u32) + flat(d.furnaces, furnace_enc())
        + codec::u32_le(d.chests.len() as u32) + flat(d.chests, chest_enc())
        + codec::u32_le(d.saplings.len() as u32) + flat(d.saplings, timed_enc())
}

// ---------------------------------------------------------------------------
// Reading the layout back.
// ---------------------------------------------------------------------------

/// The slot at `i`: empty when the id is `u16::MAX` or the count is zero.
pub open spec fn stack_at(s: Seq<u8>, i: int) -> Option<ItemStack> {
    let id = codec::le_u16_at(s, i);
    let count = codec::le_u32_at(s, i + 2);
    if id == 0xFFFF || count == 0 {
        None
    } else {
        Some(ItemStack {
            item: items::item_from_id(id),
            count,
            ench: s[i + 6],
            ench_kind: s[i + 7],
            dura: codec::le_u16_at(s, i + 8),
        })
    }
}

pub open spec fn stacks_at(s: Seq<u8>, i: int, n: nat) -> Seq<Option<ItemStack>> {
    Seq::new(n, |k: int| stack_at(s, i + 10 * k))
}

pub open spec fn pos_at(s: Seq<u8>, i: int) -> (i32, i32, i32) {
    (codec::le_u32_at(s, i) as i32, codec::le_u32_at(s, i + 4) as i32, codec::le_u32_at(s, i + 8) as i32)
}

pub open spec fn timed_at(s: Seq<u8>, i: int) -> ((i32, i32, i32), u32) {
    (pos_at(s, i), codec::le_u32_at(s, i + 12))
}

pub open spec fn edit_at(s: Seq<u8>, i: int) -> (u8, i32, i32, i32, Block) {
    let p = pos_at(s, i + 1);
    (s[i], p.0, p.1, p.2, blocks::block_from_id(s[i + 13]))
}

pub open spec fn furnace_at(s: Seq<u8>, i: int) -> ((i32, i32, i32), FurnaceState) {
    (pos_at(s, i), FurnaceState {
        input: stack_at(s, i + 12),
        fuel: stack_at(s, i + 22),
        output: stack_at(s, i + 32),
        burn_left: codec::le_u32_at(s, i + 42),
        burn_total: codec::le_u32_at(s, i + 46),
        cook: codec::le_u32_at(s, i + 50),
    })
}

pub open spec fn chest_at(s: Seq<u8>, i: int) -> ((i32, i32, i32), Seq<Option<ItemStack>>) {
    (pos_at(s, i), stacks_at(s, i + 12, CHEST_SLOTS as nat))
}

/// Where the list after the one counted at `o` starts.
pub open spec fn list_end(s: Seq<u8>, o: int, size: int) -> int {
    o + 4 + size * codec::le_u32_at(s, o)
}

/// Offsets of the five counted lists (crops, edits, furnaces, chests,
/// saplings) and of their end.
pub open spec fn list_offsets(s: Seq<u8>) -> (int, int, int, int, int, int) {
    let o1 = 448int;
    let o2 = list_end(s, o1, 16);
    let o3 = list_end(s, o2, 14);
    let o4 = list_end(s, o3, 54);
    let o5 = list_end(s, o4, 282);
    let o6 = list_end(s, o5, 16);
    (o1, o2, o3, o4, o5, o6)
}

/// The save a file holds, if it starts with the magic and no field runs
/// past its end. Bytes after the last list are ignored.
pub open spec fn parse_save(s: Seq<u8>) -> Option<SaveView> {
    let (o1, o2, o3, o4, o5, o6) = list_offsets(s);
    if s.len() >= o1 + 4 && codec::le_u32_at(s, 0) == MAGIC && s.len() >= o2 + 4 && s.len() >= o3 + 4
        && s.len() >= o4 + 4 && s.len() >= o5 + 4 && s.len() >= o6 {
        Some(SaveView {
            seed: codec::le_u32_at(s, 4),
            day_t: codec::le_u32_at(s, 8),
            player_pos: [codec::le_u32_at(s, 12), codec::le_u32_at(s, 16), codec::le_u32_at(s, 20)],
            yaw: codec::le_u32_at(s, 24),
            pitch: codec::le_u32_at(s, 28),
            health: codec::le_u32_at(s, 32),
            hunger: codec::le_u32_at(s, 36),
            fly: s[40] != 0,
            creative: s[41] != 0,
            dim: s[42],
            xp: codec::le_u32_at(s, 43),
            dragon_defeated: s[47] != 0,
            inventory: stacks_at(s, 48, INV_SIZE as nat),
            armor: stacks_at(s, 408, ARMOR_SLOTS as nat),
            crops: Seq::new(codec::le_u32_at(s, o1) as nat, |k: int| timed_at(s, o1 + 4 + 16 * k)),
            edits: Seq::new(codec::le_u32_at(s, o2) as nat, |k: int| edit_at(s, o2 + 4 + 14 * k)),
            furnaces: Seq::new(codec::le_u32_at(s, o3) as nat, |k: int| furnace_at(s, o3 + 4 + 54 * k)),
            chests: Seq::new(codec::le_u32_at(s, o4) as nat, |k: int| chest_at(s, o4 + 4 + 282 * k)),
            saplings: Seq::new(codec::le_u32_at(s, o5) as nat, |k: int| timed_at(s, o5 + 4 + 16 * k)),
        })
    } else {
        None
    }
}


// ---------------------------------------------------------------------------
// Writing.
// ---------------------------------------------------------------------------

fn push_stack(w: &mut Vec<u8>, o: &Option<ItemStack>)
    ensures
        final(w)@ == old(w)@ + stack_bytes(*o),
{
    let ghost start = w@;
    match o {
        Some(st) => {
            codec::push_u16_le(w, st.item.id());
            codec::push_u32_le(w, st.count);
            w.push(st.ench);
            w.push(st.ench_kind);
            codec::push_u16_le(w, st.dura);
        },
        None => {
            codec::push_u16_le(w, 0xFFFF);
            codec::push_u32_le(w, 0);
            w.push(0);
            w.push(0);
            codec::push_u16_le(w, 0);
        },
    }
    assert(w@ =~= start + stack_bytes(*o));
}

fn push_stacks(w: &mut Vec<u8>, slots: &Vec<Option<ItemStack>>)
    ensures
        final(w)@ == old(w)@ + flat(slots@, stack_enc()),
{
    let ghost start = w@;
    let mut i: usize = 0;
    while i < slots.len()
        invariant
            i <= slots@.len(),
            w@ == start + flat(slots@.take(i as int), stack_enc()),
        decreases slots@.len() - i,
    {
        push_stack(w, &slots[i]);
        assert(slots@.take(i + 1).drop_last() =~= slots@.take(i as int));
        i = i + 1;
    }
    assert(slots@.take(i as int) =~= slots@);
}

fn push_pos(w: &mut Vec<u8>, p: (i32, i32, i32))
    ensures
        final(w)@ == old(w)@ + pos_bytes(p),
{
    let ghost start = w@;
    codec::push_u32_le(w, p.0 as u32);
    codec::push_u32_le(w, p.1 as u32);
    codec::push_u32_le(w, p.2 as u32);
    assert(w@ =~= start + pos_bytes(p));
}

fn push_timeds(w: &mut Vec<u8>, xs: &Vec<((i32, i32, i32), u32)>)
    requires
        xs@.len() <= u32::MAX,
    ensures
        final(w)@ == old(w)@ + codec::u32_le(xs@.len() as u32) + flat(xs@, timed_enc()),
{
    codec::push_u32_le(w, xs.len() as u32);
    let ghost start = w@;
    let mut i: usize = 0;
    while i < xs.len()
        invariant
            i <= xs@.len(),
            w@ == start + flat(xs@.take(i as int), timed_enc()),
        decreases xs@.len() - i,
    {
        let ghost before = w@;
        push_pos(w, xs[i].0);
        codec::push_u32_le(w, xs[i].1);
        assert(w@ =~= before + timed_bytes(xs@[i as int]));
        assert(xs@.take(i + 1).drop_last() =~= xs@.take(i as int));
        i = i + 1;
    }
    assert(xs@.take(i as int) =~= xs@);
}

fn push_edits(w: &mut Vec<u8>, xs: &Vec<(u8, i32, i32, i32, Block)>)
    requires
        xs@.len() <= u32::MAX,
    ensures
        final(w)@ == old(w)@ + codec::u32_le(xs@.len() as u32) + flat(xs@, edit_enc()),
{
    codec::push_u32_le(w, xs.len() as u32);
    let ghost start = w@;
    let mut i: usize = 0;
    while i < xs.len()
        invariant
            i <= xs@.len(),
            w@ == start + flat(xs@.take(i as int), edit_enc()),
        decreases xs@.len() - i,
    {
        let ghost before = w@;
        let e = xs[i];
        w.push(e.0);
        push_pos(w, (e.1, e.2, e.3));
        w.push(e.4.id());
        assert(w@ =~= before + edit_bytes(xs@[i as int]));
        assert(xs@.take(i + 1).drop_last() =~= xs@.take(i as int));
        i = i + 1;
    }
    assert(xs@.take(i as int) =~= xs@);
}

fn push_furnaces(w: &mut Vec<u8>, xs: &Vec<((i32, i32, i32), FurnaceState)>)
    requires
        xs@.len() <= u32::MAX,
    ensures
        final(w)@ == old(w)@ + codec::u32_le(xs@.len() as u32) + flat(xs@, furnace_enc()),
{
    codec::push_u32_le(w, xs.len() as u32);
    let ghost start = w@;
    let mut i: usize = 0;
    while i < xs.len()
        invariant
            i <= xs@.len(),
            w@ == start + flat(xs@.take(i as int), furnace_enc()),
        decreases xs@.len() - i,
    {
        let ghost before = w@;
        let e = xs[i];
        push_pos(w, e.0);
        push_stack(w, &e.1.input);
        push_stack(w, &e.1.fuel);
        push_stack(w, &e.1.output);
        codec::push_u32_le(w, e.1.burn_left);
        codec::push_u32_le(w, e.1.burn_total);
        codec::push_u32_le(w, e.1.cook);
        assert(w@ =~= before + furnace_bytes(xs@[i as int]));
        assert(xs@.take(i + 1).drop_last() =~= xs@.take(i as int));
        i = i + 1;
    }
    assert(xs@.take(i as int) =~= xs@);
}

pub open spec fn chests_view(xs: Seq<((i32, i32, i32), Vec<Option<ItemStack>>)>) -> Seq<((i32, i32, i32), Seq<Option<ItemStack>>)> {
    xs.map_values(|c: ((i32, i32, i32), Vec<Option<ItemStack>>)| (c.0, c.1@))
}

fn push_chests(w: &mut Vec<u8>, xs: &Vec<((i32, i32, i32), Vec<Option<ItemStack>>)>)
    requires
        xs@.len() <= u32::MAX,
    ensures
        final(w)@ == old(w)@ + codec::u32_le(xs@.len() as u32) + flat(chests_view(xs@), chest_enc()),
{
    codec::push_u32_le(w, xs.len() as u32);
    let ghost start = w@;
    let ghost v = chests_view(xs@);
    let mut i: usize = 0;
    while i < xs.len()
        invariant
            i <= xs@.len(),
            v == chests_view(xs@),
            w@ == start + flat(v.take(i as int), chest_enc()),
        decreases xs@.len() - i,
    {
        let ghost before = w@;
        push_pos(w, xs[i].0);
        push_stacks(w, &xs[i].1);
        assert(w@ =~= before + chest_bytes(v[i as int]));
        assert(v.take(i + 1).drop_last() =~= v.take(i as int));
        i = i + 1;
    }
    assert(v.take(i as int) =~= v);
}

/// The bytes of a save file.
pub fn encode_save(d: &SaveData) -> (r: Vec<u8>)
    requires
        save_counts_fit(d@),
    ensures
        r@ == save_bytes(d@),
{
    let mut w: Vec<u8> = Vec::new();
    codec::push_u32_le(&mut w, MAGIC);
    codec::push_u32_le(&mut w, d.seed);
    codec::push_u32_le(&mut w, d.day_t);
    codec::push_u32_le(&mut w, d.player_pos[0]);
    codec::push_u32_le(&mut w, d.player_pos[1]);
    codec::push_u32_le(&mut w, d.player_pos[2]);
    codec::push_u32_le(&mut w, d.yaw);
    codec::push_u32_le(&mut w, d.pitch);
    codec::push_u32_le(&mut w, d.health);
    codec::push_u32_le(&mut w, d.hunger);
    w.push(if d.fly { 1 } else { 0 });
    w.push(if d.creative { 1 } else { 0 });
    w.push(d.dim);
    codec::push_u32_le(&mut w, d.xp);
    w.push(if d.dragon_defeated { 1 } else { 0 });
    assert(w@ =~= header_bytes(d@));
    push_stacks(&mut w, &d.inventory);
    push_stacks(&mut w, &d.armor);
    push_timeds(&mut w, &d.crops);
    push_edits(&mut w, &d.edits);
    push_furnaces(&mut w, &d.furnaces);
    push_chests(&mut w, &d.chests);
    push_timeds(&mut w, &d.saplings);
    proof {
        reveal(save_bytes);
    }
    assert(w@ =~= save_bytes(d@));
    w
}


// ---------------------------------------------------------------------------
// Reading.
// ---------------------------------------------------------------------------

fn rd_stack(p: &[u8], i: usize) -> (r: Option<ItemStack>)
    requires
        i + 10 <= p.len(),
    ensures
        r == stack_at(p@, i as int),
{
    let id = codec::le_u16_from(p, i);
    let count = codec::le_u32_from(p, i + 2);
    if id == 0xFFFF || count == 0 {
        None
    } else {
        let mut st = ItemStack::new(Item::from_id(id), count);
        st.ench = p[i + 6];
        st.ench_kind = p[i + 7];
        st.dura = codec::le_u16_from(p, i + 8);
        Some(st)
    }
}

fn rd_stacks(p: &[u8], i: usize, n: usize) -> (r: Vec<Option<ItemStack>>)
    requires
        i + 10 * n <= p.len(),
    ensures
        r@ == stacks_at(p@, i as int, n as nat),
{
    let mut v: Vec<Option<ItemStack>> = Vec::new();
    let mut k: usize = 0;
    while k < n
        invariant
            i + 10 * n <= p.len(),
            k <= n,
            v@ == stacks_at(p@, i as int, k as nat),
        decreases n - k,
    {
        v.push(rd_stack(p, i + 10 * k));
        assert(v@ =~= stacks_at(p@, i as int, (k + 1) as nat));
        k = k + 1;
    }
    v
}

fn rd_pos(p: &[u8], i: usize) -> (r: (i32, i32, i32))
    requires
        i + 12 <= p.len(),
    ensures
        r == pos_at(p@, i as int),
{
    (codec::le_u32_from(p, i) as i32, codec::le_u32_from(p, i + 4) as i32, codec::le_u32_from(p, i + 8) as i32)
}

fn rd_timeds(p: &[u8], o: usize, n: usize) -> (r: Vec<((i32, i32, i32), u32)>)
    requires
        o + 16 * n <= p.len(),
    ensures
        r@ == Seq::new(n as nat, |k: int| timed_at(p@, o + 16 * k)),
{
    let mut v: Vec<((i32, i32, i32), u32)> = Vec::new();
    let mut k: usize = 0;
    while k < n
        invariant
            o + 16 * n <= p.len(),
            k <= n,
            v@ == Seq::new(k as nat, |j: int| timed_at(p@, o + 16 * j)),
        decreases n - k,
    {
        let at = o + 16 * k;
        v.push((rd_pos(p, at), codec::le_u32_from(p, at + 12)));
        assert(v@ =~= Seq::new((k + 1) as nat, |j: int| timed_at(p@, o + 16 * j)));
        k = k + 1;
    }
    v
}

fn rd_edits(p: &[u8], o: usize, n: usize) -> (r: Vec<(u8, i32, i32, i32, Block)>)
    requires
        o + 14 * n <= p.len(),
    ensures
        r@ == Seq::new(n as nat, |k: int| edit_at(p@, o + 14 * k)),
{
    let mut v: Vec<(u8, i32, i32, i32, Block)> = Vec::new();
    let mut k: usize = 0;
    while k < n
        invariant
            o + 14 * n <= p.len(),
            k <= n,
            v@ == Seq::new(k as nat, |j: int| edit_at(p@, o + 14 * j)),
        decreases n - k,
    {
        let at = o + 14 * k;
        let q = rd_pos(p, at + 1);
        v.push((p[at], q.0, q.1, q.2, Block::from_id(p[at + 13])));
        assert(v@ =~= Seq::new((k + 1) as nat, |j: int| edit_at(p@, o + 14 * j)));
        k = k + 1;
    }
    v
}

fn rd_furnaces(p: &[u8], o: usize, n: usize) -> (r: Vec<((i32, i32, i32), FurnaceState)>)
    requires
        o + 54 * n <= p.len(),
    ensures
        r@ == Seq::new(n as nat, |k: int| furnace_at(p@, o + 54 * k)),
{
    let mut v: Vec<((i32, i32, i32), FurnaceState)> = Vec::new();
    let mut k: usize = 0;
    while k < n
        invariant
            o + 54 * n <= p.len(),
            k <= n,
            v@ == Seq::new(k as nat, |j: int| furnace_at(p@, o + 54 * j)),
        decreases n - k,
    {
        let at = o + 54 * k;
        let mut f = FurnaceState::new();
        f.input = rd_stack(p, at + 12);
        f.fuel = rd_stack(p, at + 22);
        f.output = rd_stack(p, at + 32);
        f.burn_left = codec::le_u32_from(p, at + 42);
        f.burn_total = codec::le_u32_from(p, at + 46);
        f.cook = codec::le_u32_from(p, at + 50);
        v.push((rd_pos(p, at), f));
        assert(v@ =~= Seq::new((k + 1) as nat, |j: int| furnace_at(p@, o + 54 * j)));
        k = k + 1;
    }
    v
}

fn rd_chests(p: &[u8], o: usize, n: usize) -> (r: Vec<((i32, i32, i32), Vec<Option<ItemStack>>)>)
    requires
        o + 282 * n <= p.len(),
    ensures
        chests_view(r@) == Seq::new(n as nat, |k: int| chest_at(p@, o + 282 * k)),
        forall|k: int| 0 <= k < r@.len() ==> (#[trigger] r@[k]).1@.len() == CHEST_SLOTS,
{
    let mut v: Vec<((i32, i32, i32), Vec<Option<ItemStack>>)> = Vec::new();
    let mut k: usize = 0;
    while k < n
        invariant
            o + 282 * n <= p.len(),
            k <= n,
            v@.len() == k,
            chests_view(v@) == Seq::new(k as nat, |j: int| chest_at(p@, o + 282 * j)),
            forall|j: int| 0 <= j < v@.len() ==> (#[trigger] v@[j]).1@.len() == CHEST_SLOTS,
        decreases n - k,
    {
        let at = o + 282 * k;
        let slots = rd_stacks(p, at + 12, CHEST_SLOTS);
        let ghost prev = v@;
        v.push((rd_pos(p, at), slots));
        assert forall|j: int| 0 <= j < k implies #[trigger] chests_view(v@)[j] == chests_view(prev)[j] by {
            assert(v@[j] == prev[j]);
        }
        assert(chests_view(v@) =~= Seq::new((k + 1) as nat, |j: int| chest_at(p@, o + 282 * j)));
        k = k + 1;
    }
    v
}

/// The save a file's bytes hold; `None` when the magic is wrong or the
/// bytes end inside a field.
pub fn decode_save(p: &[u8]) -> (r: Option<SaveData>)
    ensures
        match parse_save(p@) {
            Some(v) => r matches Some(d) && d@ == v && save_wf(d@),
            None => r is None,
        },
{
    let len = p.len() as u64;
    if len < 452 {
        return None;
    }
    if codec::le_u32_from(p, 0) != MAGIC {
        return None;
    }
    let o1: u64 = 448;
    let n1 = codec::le_u32_from(p, 448) as u64;
    let o2 = o1 + 4 + 16 * n1;
    if len < o2 + 4 {
        return None;
    }
    let n2 = codec::le_u32_from(p, o2 as usize) as u64;
    let o3 = o2 + 4 + 14 * n2;
    if len < o3 + 4 {
        return None;
    }
    let n3 = codec::le_u32_from(p, o3 as usize) as u64;
    let o4 = o3 + 4 + 54 * n3;
    if len < o4 + 4 {
        return None;
    }
    let n4 = codec::le_u32_from(p, o4 as usize) as u64;
    let o5 = o4 + 4 + 282 * n4;
    if len < o5 + 4 {
        return None;
    }
    let n5 = codec::le_u32_from(p, o5 as usize) as u64;
    let o6 = o5 + 4 + 16 * n5;
    if len < o6 {
        return None;
    }
    let ghost s = p@;
    assert(list_offsets(s) == (o1 as int, o2 as int, o3 as int, o4 as int, o5 as int, o6 as int));
    let crops = rd_timeds(p, (o1 + 4) as usize, n1 as usize);
    let edits = rd_edits(p, (o2 + 4) as usize, n2 as usize);
    let furnaces = rd_furnaces(p, (o3 + 4) as usize, n3 as usize);
    let chests = rd_chests(p, (o4 + 4) as usize, n4 as usize);
    let saplings = rd_timeds(p, (o5 + 4) as usize, n5 as usize);
    let d = SaveData {
        seed: codec::le_u32_from(p, 4),
        day_t: codec::le_u32_from(p, 8),
        player_pos: [codec::le_u32_from(p, 12), codec::le_u32_from(p, 16), codec::le_u32_from(p, 20)],
        yaw: codec::le_u32_from(p, 24),
        pitch: codec::le_u32_from(p, 28),
        health: codec::le_u32_from(p, 32),
        hunger: codec::le_u32_from(p, 36),
        fly: p[40] != 0,
        creative: p[41] != 0,
        dim: p[42],
        xp: codec::le_u32_from(p, 43),
        dragon_defeated: p[47] != 0,
        inventory: rd_stacks(p, 48, INV_SIZE),
        armor: rd_stacks(p, 408, ARMOR_SLOTS),
        crops,
        edits,
        furnaces,
        chests,
        saplings,
    };
    proof {
        let v = parse_save(s).unwrap();
        assert(d@.crops =~= v.crops);
        assert(d@.edits =~= v.edits);
        assert(d@.furnaces =~= v.furnaces);
        assert(d@.chests =~= v.chests);
        assert(d@.saplings =~= v.saplings);
        assert(d@.player_pos =~= v.player_pos);
    }
    Some(d)
}


// ---------------------------------------------------------------------------
// Reading back what was written.
// ---------------------------------------------------------------------------

/// A slot as it reads back: a stack of zero items is an empty slot.
pub open spec fn norm_stack(o: Option<ItemStack>) -> Option<ItemStack> {
    match o {
        Some(st) => if st.count == 0 { None } else { o },
        None => None,
    }
}

pub open spec fn norm_stacks(s: Seq<Option<ItemStack>>) -> Seq<Option<ItemStack>> {
    s.map_values(|o: Option<ItemStack>| norm_stack(o))
}

pub open spec fn norm_furnace(f: FurnaceState) -> FurnaceState {
    FurnaceState { input: norm_stack(f.input), fuel: norm_stack(f.fuel), output: norm_stack(f.output), ..f }
}

/// A save as it reads back: every slot normalised by `norm_stack`.
pub open spec fn normalized(d: SaveView) -> SaveView {
    SaveView {
        inventory: norm_stacks(d.inventory),
        armor: norm_stacks(d.armor),
        furnaces: d.furnaces.map_values(|e: ((i32, i32, i32), FurnaceState)| (e.0, norm_furnace(e.1))),
        chests: d.chests.map_values(|c: ((i32, i32, i32), Seq<Option<ItemStack>>)| (c.0, norm_stacks(c.1))),
        ..d
    }
}

proof fn lemma_flat<T>(xs: Seq<T>, f: spec_fn(T) -> Seq<u8>, k: nat)
    requires
        forall|x: T| #[trigger] f(x).len() == k,
    ensures
        flat(xs, f).len() == k * xs.len(),
        forall|i: int| 0 <= i < xs.len() ==> flat(xs, f).subrange(k * i, k * i + k) == f(#[trigger] xs[i]),
    decreases xs.len(),
{
    if xs.len() > 0 {
        let init = xs.drop_last();
        lemma_flat(init, f, k);
        let whole = flat(xs, f);
        let n = xs.len();
        assert(k * n == k * (n - 1) + k) by (nonlinear_arith);
        assert forall|i: int| 0 <= i < xs.len() implies whole.subrange(k * i, k * i + k) == f(#[trigger] xs[i]) by {
            if i < n - 1 {
                assert(k * i + k <= k * (n - 1)) by (nonlinear_arith)
                    requires
                        i <= n - 2,
                ;
                assert(0 <= k * i) by (nonlinear_arith)
                    requires
                        0 <= i,
                ;
                assert(init[i] == xs[i]);
                assert(whole.subrange(k * i, k * i + k) =~= flat(init, f).subrange(k * i, k * i + k));
            } else {
                assert(whole.subrange(k * i, k * i + k) =~= f(xs.last()));
            }
        }
    } else {
        assert(k * xs.len() == 0) by (nonlinear_arith)
            requires
                xs.len() == 0,
        ;
    }
}

proof fn lemma_encodings_sized()
    ensures
        forall|o: Option<ItemStack>| #[trigger] stack_enc()(o).len() == 10,
        forall|t: ((i32, i32, i32), u32)| #[trigger] timed_enc()(t).len() == 16,
        forall|e: (u8, i32, i32, i32, Block)| #[trigger] edit_enc()(e).len() == 14,
        forall|e: ((i32, i32, i32), FurnaceState)| #[trigger] furnace_enc()(e).len() == 54,
        forall|c: ((i32, i32, i32), Seq<Option<ItemStack>>)| c.1.len() == CHEST_SLOTS ==> #[trigger] chest_enc()(c).len() == 282,
{
    assert forall|c: ((i32, i32, i32), Seq<Option<ItemStack>>)| c.1.len() == CHEST_SLOTS implies #[trigger] chest_enc()(c).len() == 282 by {
        lemma_flat(c.1, stack_enc(), 10);
    }
}

proof fn lemma_sub(b: Seq<u8>, i: int, j: int, x: Seq<u8>, a: int, c: int)
    requires
        0 <= i <= j <= b.len(),
        b.subrange(i, j) == x,
        0 <= a <= c <= x.len(),
    ensures
        b.subrange(i + a, i + c) == x.subrange(a, c),
{
    assert(b.subrange(i + a, i + c) =~= x.subrange(a, c));
}

proof fn lemma_stack_at(b: Seq<u8>, i: int, o: Option<ItemStack>)
    requires
        0 <= i,
        i + 10 <= b.len(),
        b.subrange(i, i + 10) == stack_bytes(o),
    ensures
        stack_at(b, i) == norm_stack(o),
{
    let x = stack_bytes(o);
    lemma_sub(b, i, i + 10, x, 0, 2);
    lemma_sub(b, i, i + 10, x, 2, 6);
    lemma_sub(b, i, i + 10, x, 8, 10);
    assert(b[i + 6] == x[6] && b[i + 7] == x[7]);
    match o {
        Some(st) => {
            assert(x.subrange(0, 2) =~= codec::u16_le(items::item_id(st.item)));
            assert(x.subrange(2, 6) =~= codec::u32_le(st.count));
            assert(x.subrange(8, 10) =~= codec::u16_le(st.dura));
            codec::lemma_le_u16_field(b, i, items::item_id(st.item));
            codec::lemma_le_u32_field(b, i + 2, st.count);
            codec::lemma_le_u16_field(b, i + 8, st.dura);
            items::lemma_item_id_roundtrip(st.item);
        },
        None => {
            assert(x.subrange(2, 6) =~= codec::u32_le(0));
            codec::lemma_le_u32_field(b, i + 2, 0);
        },
    }
}

proof fn lemma_stacks_at(b: Seq<u8>, i: int, xs: Seq<Option<ItemStack>>)
    requires
        0 <= i,
        i + 10 * xs.len() <= b.len(),
        b.subrange(i, i + 10 * xs.len()) == flat(xs, stack_enc()),
    ensures
        stacks_at(b, i, xs.len()) == norm_stacks(xs),
{
    lemma_encodings_sized();
    lemma_flat(xs, stack_enc(), 10);
    assert forall|k: int| 0 <= k < xs.len() implies #[trigger] stacks_at(b, i, xs.len())[k] == norm_stacks(xs)[k] by {
        lemma_sub(b, i, i + 10 * xs.len(), flat(xs, stack_enc()), 10 * k, 10 * k + 10);
        lemma_stack_at(b, i + 10 * k, xs[k]);
    }
    assert(stacks_at(b, i, xs.len()) =~= norm_stacks(xs));
}

proof fn lemma_pos_at(b: Seq<u8>, i: int, p: (i32, i32, i32))
    requires
        0 <= i,
        i + 12 <= b.len(),
        b.subrange(i, i + 12) == pos_bytes(p),
    ensures
        pos_at(b, i) == p,
{
    let x = pos_bytes(p);
    lemma_sub(b, i, i + 12, x, 0, 4);
    lemma_sub(b, i, i + 12, x, 4, 8);
    lemma_sub(b, i, i + 12, x, 8, 12);
    assert(x.subrange(0, 4) =~= codec::u32_le(p.0 as u32));
    assert(x.subrange(4, 8) =~= codec::u32_le(p.1 as u32));
    assert(x.subrange(8, 12) =~= codec::u32_le(p.2 as u32));
    codec::lemma_le_u32_field(b, i, p.0 as u32);
    codec::lemma_le_u32_field(b, i + 4, p.1 as u32);
    codec::lemma_le_u32_field(b, i + 8, p.2 as u32);
    let (a, c, e) = p;
    assert((a as u32) as i32 == a && (c as u32) as i32 == c && (e as u32) as i32 == e) by (bit_vector);
}

proof fn lemma_timed_at(b: Seq<u8>, i: int, t: ((i32, i32, i32), u32))
    requires
        0 <= i,
        i + 16 <= b.len(),
        b.subrange(i, i + 16) == timed_bytes(t),
    ensures
        timed_at(b, i) == t,
{
    let x = timed_bytes(t);
    lemma_sub(b, i, i + 16, x, 0, 12);
    lemma_sub(b, i, i + 16, x, 12, 16);
    assert(x.subrange(0, 12) =~= pos_bytes(t.0));
    assert(x.subrange(12, 16) =~= codec::u32_le(t.1));
    lemma_pos_at(b, i, t.0);
    codec::lemma_le_u32_field(b, i + 12, t.1);
}

proof fn lemma_edit_at(b: Seq<u8>, i: int, e: (u8, i32, i32, i32, Block))
    requires
        0 <= i,
        i + 14 <= b.len(),
        b.subrange(i, i + 14) == edit_bytes(e),
    ensures
        edit_at(b, i) == e,
{
    let x = edit_bytes(e);
    lemma_sub(b, i, i + 14, x, 1, 13);
    assert(x.subrange(1, 13) =~= pos_bytes((e.1, e.2, e.3)));
    assert(b[i] == x[0] && b[i + 13] == x[13]);
    lemma_pos_at(b, i + 1, (e.1, e.2, e.3));
    blocks::lemma_block_id_roundtrip(e.4, 0);
}

proof fn lemma_furnace_at(b: Seq<u8>, i: int, e: ((i32, i32, i32), FurnaceState))
    requires
        0 <= i,
        i + 54 <= b.len(),
        b.subrange(i, i + 54) == furnace_bytes(e),
    ensures
        furnace_at(b, i) == (e.0, norm_furnace(e.1)),
{
    let x = furnace_bytes(e);
    let f = e.1;
    lemma_sub(b, i, i + 54, x, 0, 12);
    lemma_sub(b, i, i + 54, x, 12, 22);
    lemma_sub(b, i, i + 54, x, 22, 32);
    lemma_sub(b, i, i + 54, x, 32, 42);
    lemma_sub(b, i, i + 54, x, 42, 46);
    lemma_sub(b, i, i + 54, x, 46, 50);
    lemma_sub(b, i, i + 54, x, 50, 54);
    assert(x.subrange(0, 12) =~= pos_bytes(e.0));
    assert(x.subrange(12, 22) =~= stack_bytes(f.input));
    assert(x.subrange(22, 32) =~= stack_bytes(f.fuel));
    assert(x.subrange(32, 42) =~= stack_bytes(f.output));
    assert(x.subrange(42, 46) =~= codec::u32_le(f.burn_left));
    assert(x.subrange(46, 50) =~= codec::u32_le(f.burn_total));
    assert(x.subrange(50, 54) =~= codec::u32_le(f.cook));
    lemma_pos_at(b, i, e.0);
    lemma_stack_at(b, i + 12, f.input);
    lemma_stack_at(b, i + 22, f.fuel);
    lemma_stack_at(b, i + 32, f.output);
    codec::lemma_le_u32_field(b, i + 42, f.burn_left);
    codec::lemma_le_u32_field(b, i + 46, f.burn_total);
    codec::lemma_le_u32_field(b, i + 50, f.cook);
}

proof fn lemma_chest_at(b: Seq<u8>, i: int, c: ((i32, i32, i32), Seq<Option<ItemStack>>))
    requires
        0 <= i,
        i + 282 <= b.len(),
        c.1.len() == CHEST_SLOTS,
        b.subrange(i, i + 282) == chest_bytes(c),
    ensures
        chest_at(b, i) == (c.0, norm_stacks(c.1)),
{
    let x = chest_bytes(c);
    lemma_flat(c.1, stack_enc(), 10);
    lemma_encodings_sized();
    lemma_sub(b, i, i + 282, x, 0, 12);
    lemma_sub(b, i, i + 282, x, 12, 282);
    assert(x.subrange(0, 12) =~= pos_bytes(c.0));
    assert(x.subrange(12, 282) =~= flat(c.1, stack_enc()));
    lemma_pos_at(b, i, c.0);
    lemma_stacks_at(b, i + 12, c.1);
}


proof fn lemma_region(b: Seq<u8>, q: Seq<u8>, x: Seq<u8>)
    requires
        q.len() + x.len() <= b.len(),
        b.subrange(0, (q.len() + x.len()) as int) == q + x,
    ensures
        b.subrange(0, q.len() as int) == q,
        b.subrange(q.len() as int, (q.len() + x.len()) as int) == x,
{
    let n = (q.len() + x.len()) as int;
    assert forall|j: int| 0 <= j < n implies #[trigger] b[j] == (q + x)[j] by {
        assert(b.subrange(0, n)[j] == b[j]);
    }
    assert(b.subrange(0, q.len() as int) =~= q);
    assert(b.subrange(q.len() as int, n) =~= x);
}

proof fn lemma_timeds_at(b: Seq<u8>, o: int, xs: Seq<((i32, i32, i32), u32)>)
    requires
        0 <= o,
        o + 16 * xs.len() <= b.len(),
        b.subrange(o, o + 16 * xs.len()) == flat(xs, timed_enc()),
    ensures
        Seq::new(xs.len(), |k: int| timed_at(b, o + 16 * k)) == xs,
{
    lemma_encodings_sized();
    lemma_flat(xs, timed_enc(), 16);
    let got = Seq::new(xs.len(), |k: int| timed_at(b, o + 16 * k));
    assert forall|k: int| 0 <= k < xs.len() implies #[trigger] got[k] == xs[k] by {
        lemma_sub(b, o, o + 16 * xs.len(), flat(xs, timed_enc()), 16 * k, 16 * k + 16);
        lemma_timed_at(b, o + 16 * k, xs[k]);
    }
    assert(got =~= xs);
}

proof fn lemma_edits_at(b: Seq<u8>, o: int, xs: Seq<(u8, i32, i32, i32, Block)>)
    requires
        0 <= o,
        o + 14 * xs.len() <= b.len(),
        b.subrange(o, o + 14 * xs.len()) == flat(xs, edit_enc()),
    ensures
        Seq::new(xs.len(), |k: int| edit_at(b, o + 14 * k)) == xs,
{
    lemma_encodings_sized();
    lemma_flat(xs, edit_enc(), 14);
    let got = Seq::new(xs.len(), |k: int| edit_at(b, o + 14 * k));
    assert forall|k: int| 0 <= k < xs.len() implies #[trigger] got[k] == xs[k] by {
        lemma_sub(b, o, o + 14 * xs.len(), flat(xs, edit_enc()), 14 * k, 14 * k + 14);
        lemma_edit_at(b, o + 14 * k, xs[k]);
    }
    assert(got =~= xs);
}

proof fn lemma_furnaces_at(b: Seq<u8>, o: int, xs: Seq<((i32, i32, i32), FurnaceState)>)
    requires
        0 <= o,
        o + 54 * xs.len() <= b.len(),
        b.subrange(o, o + 54 * xs.len()) == flat(xs, furnace_enc()),
    ensures
        Seq::new(xs.len(), |k: int| furnace_at(b, o + 54 * k))
            == xs.map_values(|e: ((i32, i32, i32), FurnaceState)| (e.0, norm_furnace(e.1))),
{
    lemma_encodings_sized();
    lemma_flat(xs, furnace_enc(), 54);
    let got = Seq::new(xs.len(), |k: int| furnace_at(b, o + 54 * k));
    let want = xs.map_values(|e: ((i32, i32, i32), FurnaceState)| (e.0, norm_furnace(e.1)));
    assert forall|k: int| 0 <= k < xs.len() implies #[trigger] got[k] == want[k] by {
        lemma_sub(b, o, o + 54 * xs.len(), flat(xs, furnace_enc()), 54 * k, 54 * k + 54);
        lemma_furnace_at(b, o + 54 * k, xs[k]);
    }
    assert(got =~= want);
}

proof fn lemma_chests_at(b: Seq<u8>, o: int, xs: Seq<((i32, i32, i32), Seq<Option<ItemStack>>)>)
    requires
        0 <= o,
        o + 282 * xs.len() <= b.len(),
        forall|k: int| 0 <= k < xs.len() ==> (#[trigger] xs[k]).1.len() == CHEST_SLOTS,
        b.subrange(o, o + 282 * xs.len()) == flat(xs, chest_enc()),
    ensures
        Seq::new(xs.len(), |k: int| chest_at(b, o + 282 * k))
            == xs.map_values(|c: ((i32, i32, i32), Seq<Option<ItemStack>>)| (c.0, norm_stacks(c.1))),
{
    lemma_encodings_sized();
    assert forall|c: ((i32, i32, i32), Seq<Option<ItemStack>>)| xs.contains(c) implies #[trigger] chest_enc()(c).len() == 282 by {
        let k = choose|k: int| 0 <= k < xs.len() && xs[k] == c;
        assert(xs[k].1.len() == CHEST_SLOTS);
    }
    lemma_flat_sized(xs, chest_enc(), 282);
    let got = Seq::new(xs.len(), |k: int| chest_at(b, o + 282 * k));
    let want = xs.map_values(|c: ((i32, i32, i32), Seq<Option<ItemStack>>)| (c.0, norm_stacks(c.1)));
    assert forall|k: int| 0 <= k < xs.len() implies #[trigger] got[k] == want[k] by {
        lemma_sub(b, o, o + 282 * xs.len(), flat(xs, chest_enc()), 282 * k, 282 * k + 282);
        lemma_chest_at(b, o + 282 * k, xs[k]);
    }
    assert(got =~= want);
}

/// `lemma_flat` for records whose size is fixed only on the list at hand.
proof fn lemma_flat_sized<T>(xs: Seq<T>, f: spec_fn(T) -> Seq<u8>, k: nat)
    requires
        forall|x: T| xs.contains(x) ==> #[trigger] f(x).len() == k,
    ensures
        flat(xs, f).len() == k * xs.len(),
        forall|i: int| 0 <= i < xs.len() ==> flat(xs, f).subrange(k * i, k * i + k) == f(#[trigger] xs[i]),
    decreases xs.len(),
{
    if xs.len() > 0 {
        let init = xs.drop_last();
        assert forall|x: T| init.contains(x) implies #[trigger] f(x).len() == k by {
            let j = choose|j: int| 0 <= j < init.len() && init[j] == x;
            assert(xs[j] == x);
        }
        lemma_flat_sized(init, f, k);
        assert(xs.contains(xs.last()));
        let whole = flat(xs, f);
        let n = xs.len();
        assert(k * n == k * (n - 1) + k) by (nonlinear_arith);
        assert forall|i: int| 0 <= i < xs.len() implies whole.subrange(k * i, k * i + k) == f(#[trigger] xs[i]) by {
            if i < n - 1 {
                assert(k * i + k <= k * (n - 1)) by (nonlinear_arith)
                    requires
                        i <= n - 2,
                ;
                assert(0 <= k * i) by (nonlinear_arith)
                    requires
                        0 <= i,
                ;
                assert(init[i] == xs[i]);
                assert(whole.subrange(k * i, k * i + k) =~= flat(init, f).subrange(k * i, k * i + k));
            } else {
                assert(whole.subrange(k * i, k * i + k) =~= f(xs.last()));
            }
        }
    } else {
        assert(k * xs.len() == 0) by (nonlinear_arith)
            requires
                xs.len() == 0,
        ;
    }
}

proof fn lemma_header_at(b: Seq<u8>, d: SaveView)
    requires
        48 <= b.len(),
        b.subrange(0, 48) == header_bytes(d),
    ensures
        codec::le_u32_at(b, 0) == MAGIC,
        codec::le_u32_at(b, 4) == d.seed,
        codec::le_u32_at(b, 8) == d.day_t,
        codec::le_u32_at(b, 12) == d.player_pos[0],
        codec::le_u32_at(b, 16) == d.player_pos[1],
        codec::le_u32_at(b, 20) == d.player_pos[2],
        codec::le_u32_at(b, 24) == d.yaw,
        codec::le_u32_at(b, 28) == d.pitch,
        codec::le_u32_at(b, 32) == d.health,
        codec::le_u32_at(b, 36) == d.hunger,
        (b[40] != 0) == d.fly,
        (b[41] != 0) == d.creative,
        b[42] == d.dim,
        codec::le_u32_at(b, 43) == d.xp,
        (b[47] != 0) == d.dragon_defeated,
{
    let h = header_bytes(d);
    let vals = seq![MAGIC, d.seed, d.day_t, d.player_pos[0], d.player_pos[1], d.player_pos[2], d.yaw, d.pitch, d.health, d.hunger];
    assert forall|j: int| 0 <= j < 10 implies codec::le_u32_at(b, 4 * j) == #[trigger] vals[j] by {
        lemma_sub(b, 0, 48, h, 4 * j, 4 * j + 4);
        assert(h.subrange(4 * j, 4 * j + 4) =~= codec::u32_le(vals[j]));
        codec::lemma_le_u32_field(b, 4 * j, vals[j]);
    }
    assert(vals[0] == MAGIC && vals[1] == d.seed && vals[2] == d.day_t && vals[3] == d.player_pos[0]);
    assert(vals[4] == d.player_pos[1] && vals[5] == d.player_pos[2] && vals[6] == d.yaw);
    assert(vals[7] == d.pitch && vals[8] == d.health && vals[9] == d.hunger);
    lemma_sub(b, 0, 48, h, 43, 47);
    assert(h.subrange(43, 47) =~= codec::u32_le(d.xp));
    codec::lemma_le_u32_field(b, 43, d.xp);
    assert(b[40] == h[40] && b[41] == h[41] && b[42] == h[42] && b[47] == h[47]);
}

/// The regions of a written save: header, slots, and each count followed by
/// its list.
#[verifier::spinoff_prover]
#[verifier::rlimit(100)]
proof fn lemma_save_layout(d: SaveView)
    requires
        save_wf(d),
        save_counts_fit(d),
    ensures
        ({
            let b = save_bytes(d);
            let n1 = d.crops.len() as int;
            let n2 = d.edits.len() as int;
            let n3 = d.furnaces.len() as int;
            let n4 = d.chests.len() as int;
            let n5 = d.saplings.len() as int;
            let o2 = 452 + 16 * n1;
            let o3 = o2 + 4 + 14 * n2;
            let o4 = o3 + 4 + 54 * n3;
            let o5 = o4 + 4 + 282 * n4;
            let o6 = o5 + 4 + 16 * n5;
            &&& b.len() == o6
            &&& b.subrange(0, 48) == header_bytes(d)
            &&& b.subrange(48, 408) == flat(d.inventory, stack_enc())
            &&& b.subrange(408, 448) == flat(d.armor, stack_enc())
            &&& b.subrange(448, 452) == codec::u32_le(d.crops.len() as u32)
            &&& b.subrange(452, o2) == flat(d.crops, timed_enc())
            &&& b.subrange(o2, o2 + 4) == codec::u32_le(d.edits.len() as u32)
            &&& b.subrange(o2 + 4, o3) == flat(d.edits, edit_enc())
            &&& b.subrange(o3, o3 + 4) == codec::u32_le(d.furnaces.len() as u32)
            &&& b.subrange(o3 + 4, o4) == flat(d.furnaces, furnace_enc())
            &&& b.subrange(o4, o4 + 4) == codec::u32_le(d.chests.len() as u32)
            &&& b.subrange(o4 + 4, o5) == flat(d.chests, chest_enc())
            &&& b.subrange(o5, o5 + 4) == codec::u32_le(d.saplings.len() as u32)
            &&& b.subrange(o5 + 4, o6) == flat(d.saplings, timed_enc())
        }),
{
    lemma_encodings_sized();
    let h = header_bytes(d);
    let inv = flat(d.inventory, stack_enc());
    let arm = flat(d.armor, stack_enc());
    let c1 = codec::u32_le(d.crops.len() as u32);
    let cr = flat(d.crops, timed_enc());
    let c2 = codec::u32_le(d.edits.len() as u32);
    let ed = flat(d.edits, edit_enc());
    let c3 = codec::u32_le(d.furnaces.len() as u32);
    let fu = flat(d.furnaces, furnace_enc());
    let c4 = codec::u32_le(d.chests.len() as u32);
    let ch = flat(d.chests, chest_enc());
    let c5 = codec::u32_le(d.saplings.len() as u32);
    let sa = flat(d.saplings, timed_enc());
    let q1 = h + inv;
    let q2 = q1 + arm;
    let q3 = q2 + c1;
    let q4 = q3 + cr;
    let q5 = q4 + c2;
    let q6 = q5 + ed;
    let q7 = q6 + c3;
    let q8 = q7 + fu;
    let q9 = q8 + c4;
    let q10 = q9 + ch;
    let q11 = q10 + c5;
    let b = q11 + sa;
    assert(b == save_bytes(d)) by {
        reveal(save_bytes);
    }
    lemma_flat(d.inventory, stack_enc(), 10);
    lemma_flat(d.armor, stack_enc(), 10);
    lemma_flat(d.crops, timed_enc(), 16);
    lemma_flat(d.edits, edit_enc(), 14);
    lemma_flat(d.furnaces, furnace_enc(), 54);
    assert forall|c: ((i32, i32, i32), Seq<Option<ItemStack>>)| d.chests.contains(c) implies #[trigger] chest_enc()(c).len() == 282 by {
        let k = choose|k: int| 0 <= k < d.chests.len() && d.chests[k] == c;
        assert(d.chests[k].1.len() == CHEST_SLOTS);
    }
    lemma_flat_sized(d.chests, chest_enc(), 282);
    lemma_flat(d.saplings, timed_enc(), 16);
    assert(b.subrange(0, b.len() as int) =~= b);
    lemma_region(b, q11, sa);
    lemma_region(b, q10, c5);
    lemma_region(b, q9, ch);
    lemma_region(b, q8, c4);
    lemma_region(b, q7, fu);
    lemma_region(b, q6, c3);
    lemma_region(b, q5, ed);
    lemma_region(b, q4, c2);
    lemma_region(b, q3, cr);
    lemma_region(b, q2, c1);
    lemma_region(b, q1, arm);
    lemma_region(b, h, inv);
}

pub open spec fn save_list_offsets(d: SaveView) -> (int, int, int, int, int, int) {
    let o1 = 448int;
    let o2 = o1 + 4 + 16 * d.crops.len();
    let o3 = o2 + 4 + 14 * d.edits.len();
    let o4 = o3 + 4 + 54 * d.furnaces.len();
    let o5 = o4 + 4 + 282 * d.chests.len();
    let o6 = o5 + 4 + 16 * d.saplings.len();
    (o1, o2, o3, o4, o5, o6)
}

proof fn lemma_save_scalars(d: SaveView)
    requires
        save_wf(d),
        save_counts_fit(d),
    ensures
        ({
            let b = save_bytes(d);
            &&& codec::le_u32_at(b, 0) == MAGIC
            &&& codec::le_u32_at(b, 4) == d.seed
            &&& codec::le_u32_at(b, 8) == d.day_t
            &&& codec::le_u32_at(b, 12) == d.player_pos[0]
            &&& codec::le_u32_at(b, 16) == d.player_pos[1]
            &&& codec::le_u32_at(b, 20) == d.player_pos[2]
            &&& codec::le_u32_at(b, 24) == d.yaw
            &&& codec::le_u32_at(b, 28) == d.pitch
            &&& codec::le_u32_at(b, 32) == d.health
            &&& codec::le_u32_at(b, 36) == d.hunger
            &&& (b[40] != 0) == d.fly
            &&& (b[41] != 0) == d.creative
            &&& b[42] == d.dim
            &&& codec::le_u32_at(b, 43) == d.xp
            &&& (b[47] != 0) == d.dragon_defeated
            &&& stacks_at(b, 48, INV_SIZE as nat) == norm_stacks(d.inventory)
            &&& stacks_at(b, 408, ARMOR_SLOTS as nat) == norm_stacks(d.armor)
        }),
{
    let b = save_bytes(d);
    lemma_save_layout(d);
    lemma_header_at(b, d);
    lemma_stacks_at(b, 48, d.inventory);
    lemma_stacks_at(b, 408, d.armor);
}

proof fn lemma_save_counts(d: SaveView)
    requires
        save_wf(d),
        save_counts_fit(d),
    ensures
        ({
            let b = save_bytes(d);
            let (o1, o2, o3, o4, o5, o6) = save_list_offsets(d);
            &&& b.len() == o6
            &&& codec::le_u32_at(b, o1) == d.crops.len()
            &&& codec::le_u32_at(b, o2) == d.edits.len()
            &&& codec::le_u32_at(b, o3) == d.furnaces.len()
            &&& codec::le_u32_at(b, o4) == d.chests.len()
            &&& codec::le_u32_at(b, o5) == d.saplings.len()
            &&& list_offsets(b) == save_list_offsets(d)
        }),
{
    let b = save_bytes(d);
    lemma_save_layout(d);
    let (o1, o2, o3, o4, o5, o6) = save_list_offsets(d);
    codec::lemma_le_u32_field(b, o1, d.crops.len() as u32);
    codec::lemma_le_u32_field(b, o2, d.edits.len() as u32);
    codec::lemma_le_u32_field(b, o3, d.furnaces.len() as u32);
    codec::lemma_le_u32_field(b, o4, d.chests.len() as u32);
    codec::lemma_le_u32_field(b, o5, d.saplings.len() as u32);
}

proof fn lemma_save_lists(d: SaveView)
    requires
        save_wf(d),
        save_counts_fit(d),
    ensures
        ({
            let b = save_bytes(d);
            let (o1, o2, o3, o4, o5, o6) = save_list_offsets(d);
            &&& Seq::new(d.crops.len(), |k: int| timed_at(b, o1 + 4 + 16 * k)) == d.crops
            &&& Seq::new(d.edits.len(), |k: int| edit_at(b, o2 + 4 + 14 * k)) == d.edits
            &&& Seq::new(d.furnaces.len(), |k: int| furnace_at(b, o3 + 4 + 54 * k))
                == d.furnaces.map_values(|e: ((i32, i32, i32), FurnaceState)| (e.0, norm_furnace(e.1)))
            &&& Seq::new(d.chests.len(), |k: int| chest_at(b, o4 + 4 + 282 * k))
                == d.chests.map_values(|c: ((i32, i32, i32), Seq<Option<ItemStack>>)| (c.0, norm_stacks(c.1)))
            &&& Seq::new(d.saplings.len(), |k: int| timed_at(b, o5 + 4 + 16 * k)) == d.saplings
        }),
{
    let b = save_bytes(d);
    lemma_save_layout(d);
    let (o1, o2, o3, o4, o5, o6) = save_list_offsets(d);
    lemma_timeds_at(b, o1 + 4, d.crops);
    lemma_edits_at(b, o2 + 4, d.edits);
    lemma_furnaces_at(b, o3 + 4, d.furnaces);
    lemma_chests_at(b, o4 + 4, d.chests);
    lemma_timeds_at(b, o5 + 4, d.saplings);
}

/// Reading a written save gives it back, each slot normalised by
/// `norm_stack` (a stack of zero items reads back as an empty slot).
#[verifier::spinoff_prover]
pub proof fn lemma_save_roundtrip(d: SaveView)
    requires
        save_wf(d),
        save_counts_fit(d),
    ensures
        parse_save(save_bytes(d)) == Some(normalized(d)),
{
    let b = save_bytes(d);
    lemma_save_scalars(d);
    lemma_save_counts(d);
    lemma_save_lists(d);
    let v = parse_save(b).unwrap();
    let w = normalized(d);
    assert(v.crops =~= w.crops);
    assert(v.edits =~= w.edits);
    assert(v.furnaces =~= w.furnaces);
    assert(v.chests =~= w.chests);
    assert(v.saplings =~= w.saplings);
    assert(v.player_pos =~= w.player_pos);
}

} // verus!
