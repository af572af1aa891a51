//! LAN multiplayer wire format: one host, many clients over TCP, speaking
//! length-prefixed little-endian messages. Floating-point fields travel as
//! their IEEE-754 bit patterns and are held here as those bits.

use vstd::prelude::*;
use vstd::utf8::{encode_utf8, valid_utf8, decode_utf8};
use crate::codec;

verus! {

pub const DEFAULT_PORT: u16 = 25565;

/// Authoritative snapshot of one mob (float fields as bits).
#[derive(Clone, Copy, PartialEq, Eq, Debug, Structural)]
pub struct MobSnap {
    pub id: u16,
    pub kind: u8,
    pub x: u32,
    pub y: u32,
    pub z: u32,
    pub yaw: u32,
    pub health: u32,
    /// 1 hurt, 2 burning, 4 fuse-flash.
    pub flags: u8,
    pub walk: u32,
}

/// One shared item drop (position as float bits).
#[derive(Clone, Copy, PartialEq, Eq, Debug, Structural)]
pub struct DropSnap {
    pub id: u16,
    pub item: u16,
    pub x: u32,
    pub y: u32,
    pub z: u32,
}

#[derive(Clone, PartialEq, Debug)]
pub enum NetMsg {
    /// Host -> client on connect: adopt this seed/time; you are `your_id`.
    Hello { seed: u32, day_t: u32, your_id: u8 },
    /// A block changed somewhere (any dimension).
    SetBlock { dim: u8, x: i32, y: i32, z: i32, b: u8 },
    /// Player position/orientation; host messages carry the time of day.
    Pos { id: u8, dim: u8, x: u32, y: u32, z: u32, yaw: u32, day_t: u32 },
    /// A player disconnected.
    Leave { id: u8 },
    /// Host -> clients: authoritative mob snapshot for one dimension.
    Mobs { dim: u8, mobs: Vec<MobSnap> },
    /// Host -> clients: shared item drops in one dimension.
    Drops { dim: u8, drops: Vec<DropSnap> },
    /// Client -> host: I hit mob `id`.
    Hit { id: u16, dmg: u32, fx: u32, fy: u32, fz: u32 },
    /// Client -> host: I want drop `id`. Host validates and answers Give.
    TakeDrop { id: u16 },
    /// Host -> client: you picked this up.
    Give { item: u16, count: u32 },
    /// Host -> client: a mob hurt you.
    Damage { amount: u32 },
    /// Chat line (relayed to everyone).
    Chat { from: u8, text: String },
}

/// A message with its lists and text as mathematical values.
pub enum NetMsgView {
    Hello { seed: u32, day_t: u32, your_id: u8 },
    SetBlock { dim: u8, x: i32, y: i32, z: i32, b: u8 },
    Pos { id: u8, dim: u8, x: u32, y: u32, z: u32, yaw: u32, day_t: u32 },
    Leave { id: u8 },
    Mobs { dim: u8, mobs: Seq<MobSnap> },
    Drops { dim: u8, drops: Seq<DropSnap> },
    Hit { id: u16, dmg: u32, fx: u32, fy: u32, fz: u32 },
    TakeDrop { id: u16 },
    Give { item: u16, count: u32 },
    Damage { amount: u32 },
    Chat { from: u8, text: Seq<char> },
}

impl View for NetMsg {
    type V = NetMsgView;

    open spec fn view(&self) -> NetMsgView {
        match self {
            NetMsg::Hello { seed, day_t, your_id } => NetMsgView::Hello { seed: *seed, day_t: *day_t, your_id: *your_id },
            NetMsg::SetBlock { dim, x, y, z, b } => NetMsgView::SetBlock { dim: *dim, x: *x, y: *y, z: *z, b: *b },
            NetMsg::Pos { id, dim, x, y, z, yaw, day_t } => NetMsgView::Pos {
                id: *id,
                dim: *dim,
                x: *x,
                y: *y,
                z: *z,
                yaw: *yaw,
                day_t: *day_t,
            },
            NetMsg::Leave { id } => NetMsgView::Leave { id: *id },
            NetMsg::Mobs { dim, mobs } => NetMsgView::Mobs { dim: *dim, mobs: mobs@ },
            NetMsg::Drops { dim, drops } => NetMsgView::Drops { dim: *dim, drops: drops@ },
            NetMsg::Hit { id, dmg, fx, fy, fz } => NetMsgView::Hit { id: *id, dmg: *dmg, fx: *fx, fy: *fy, fz: *fz },
            NetMsg::TakeDrop { id } => NetMsgView::TakeDrop { id: *id },
            NetMsg::Give { item, count } => NetMsgView::Give { item: *item, count: *count },
            NetMsg::Damage { amount } => NetMsgView::Damage { amount: *amount },
            NetMsg::Chat { from, text } => NetMsgView::Chat { from: *from, text: text@ },
        }
    }
}

/// Most chat bytes a message carries; longer text is cut.
pub const MAX_CHAT_BYTES: usize = 240;

/// Most list entries a decoder takes from one message.
pub const MAX_SNAPS: usize = 512;

/// A mob record: id, kind, x, y, z, yaw, health, walk (little-endian),
/// then the flags byte.
pub open spec fn mob_bytes(m: MobSnap) -> Seq<u8> {
    seq![
        m.id as u8, (m.id >> 8u16) as u8, m.kind,
        m.x as u8, (m.x >> 8u32) as u8, (m.x >> 16u32) as u8, (m.x >> 24u32) as u8,
        m.y as u8, (m.y >> 8u32) as u8, (m.y >> 16u32) as u8, (m.y >> 24u32) as u8,
        m.z as u8, (m.z >> 8u32) as u8, (m.z >> 16u32) as u8, (m.z >> 24u32) as u8,
        m.yaw as u8, (m.yaw >> 8u32) as u8, (m.yaw >> 16u32) as u8, (m.yaw >> 24u32) as u8,
        m.health as u8, (m.health >> 8u32) as u8, (m.health >> 16u32) as u8, (m.health >> 24u32) as u8,
        m.walk as u8, (m.walk >> 8u32) as u8, (m.walk >> 16u32) as u8, (m.walk >> 24u32) as u8,
        m.flags,
    ]
}

/// A drop record: id, item, x, y, z (little-endian).
pub open spec fn drop_bytes(d: DropSnap) -> Seq<u8> {
    seq![
        d.id as u8, (d.id >> 8u16) as u8, d.item as u8, (d.item >> 8u16) as u8,
        d.x as u8, (d.x >> 8u32) as u8, (d.x >> 16u32) as u8, (d.x >> 24u32) as u8,
        d.y as u8, (d.y >> 8u32) as u8, (d.y >> 16u32) as u8, (d.y >> 24u32) as u8,
        d.z as u8, (d.z >> 8u32) as u8, (d.z >> 16u32) as u8, (d.z >> 24u32) as u8,
    ]
}

pub open spec fn mobs_bytes(ms: Seq<MobSnap>) -> Seq<u8>
    decreases ms.len(),
{
    if ms.len() == 0 {
        Seq::empty()
    } else {
        mobs_bytes(ms.drop_last()) + mob_bytes(ms.last())
    }
}

pub open spec fn drops_bytes(ds: Seq<DropSnap>) -> Seq<u8>
    decreases ds.len(),
{
    if ds.len() == 0 {
        Seq::empty()
    } else {
        drops_bytes(ds.drop_last()) + drop_bytes(ds.last())
    }
}

/// The bytes of a chat text as sent: its UTF-8, cut to the chat limit.
pub open spec fn chat_bytes(text: Seq<char>) -> Seq<u8> {
    let b = encode_utf8(text);
    if b.len() <= MAX_CHAT_BYTES {
        b
    } else {
        b.take(MAX_CHAT_BYTES as int)
    }
}

/// The payload of a message: a tag byte, then its fields in order.
pub open spec fn msg_body(m: NetMsgView) -> Seq<u8> {
    match m {
        NetMsgView::Hello { seed, day_t, your_id } => seq![0u8] + codec::u32_le(seed) + codec::u32_le(day_t) + seq![your_id],
        NetMsgView::SetBlock { dim, x, y, z, b } => seq![1u8, dim] + codec::u32_le(x as u32) + codec::u32_le(y as u32)
            + codec::u32_le(z as u32) + seq![b],
        NetMsgView::Pos { id, dim, x, y, z, yaw, day_t } => seq![2u8, id, dim] + codec::u32_le(x) + codec::u32_le(y)
            + codec::u32_le(z) + codec::u32_le(yaw) + codec::u32_le(day_t),
        NetMsgView::Leave { id } => seq![3u8, id],
        NetMsgView::Mobs { dim, mobs } => seq![4u8, dim] + codec::u16_le(mobs.len() as u16) + mobs_bytes(mobs),
        NetMsgView::Drops { dim, drops } => seq![5u8, dim] + codec::u16_le(drops.len() as u16) + drops_bytes(drops),
        NetMsgView::Hit { id, dmg, fx, fy, fz } => seq![6u8] + codec::u16_le(id) + codec::u32_le(dmg) + codec::u32_le(fx)
            + codec::u32_le(fy) + codec::u32_le(fz),
        NetMsgView::TakeDrop { id } => seq![7u8] + codec::u16_le(id),
        NetMsgView::Give { item, count } => seq![8u8] + codec::u16_le(item) + codec::u32_le(count),
        NetMsgView::Damage { amount } => seq![9u8] + codec::u32_le(amount),
        NetMsgView::Chat { from, text } => seq![10u8, from] + codec::u16_le(chat_bytes(text).len() as u16) + chat_bytes(text),
    }
}

/// A message on the wire: the payload length (32-bit little-endian), then
/// the payload.
pub open spec fn spec_encode(m: NetMsgView) -> Seq<u8> {
    codec::u32_le(msg_body(m).len() as u32) + msg_body(m)
}

fn push_mob(w: &mut Vec<u8>, m: MobSnap)
    ensures
        final(w)@ == old(w)@ + mob_bytes(m),
{
    codec::push_u16_le(w, m.id);
    w.push(m.kind);
    codec::push_u32_le(w, m.x);
    codec::push_u32_le(w, m.y);
    codec::push_u32_le(w, m.z);
    codec::push_u32_le(w, m.yaw);
    codec::push_u32_le(w, m.health);
    codec::push_u32_le(w, m.walk);
    w.push(m.flags);
    assert(final(w)@ =~= old(w)@ + mob_bytes(m));
}

fn push_drop(w: &mut Vec<u8>, d: DropSnap)
    ensures
        final(w)@ == old(w)@ + drop_bytes(d),
{
    codec::push_u16_le(w, d.id);
    codec::push_u16_le(w, d.item);
    codec::push_u32_le(w, d.x);
    codec::push_u32_le(w, d.y);
    codec::push_u32_le(w, d.z);
    assert(final(w)@ =~= old(w)@ + drop_bytes(d));
}

/// The framed bytes of a message.
pub fn encode(msg: &NetMsg) -> (r: Vec<u8>)
    ensures
        r@ == spec_encode(msg@),
{
    let mut w: Vec<u8> = Vec::new();
    match msg {
        NetMsg::Hello { seed, day_t, your_id } => {
            w.push(0);
            codec::push_u32_le(&mut w, *seed);
            codec::push_u32_le(&mut w, *day_t);
            w.push(*your_id);
        },
        NetMsg::SetBlock { dim, x, y, z, b } => {
            w.push(1);
            w.push(*dim);
            codec::push_u32_le(&mut w, *x as u32);
            codec::push_u32_le(&mut w, *y as u32);
            codec::push_u32_le(&mut w, *z as u32);
            w.push(*b);
        },
        NetMsg::Pos { id, dim, x, y, z, yaw, day_t } => {
            w.push(2);
            w.push(*id);
            w.push(*dim);
            codec::push_u32_le(&mut w, *x);
            codec::push_u32_le(&mut w, *y);
            codec::push_u32_le(&mut w, *z);
            codec::push_u32_le(&mut w, *yaw);
            codec::push_u32_le(&mut w, *day_t);
        },
        NetMsg::Leave { id } => {
            w.push(3);
            w.push(*id);
        },
        NetMsg::Mobs { dim, mobs } => {
            w.push(4);
            w.push(*dim);
            codec::push_u16_le(&mut w, mobs.len() as u16);
            let ghost head = w@;
            let mut i: usize = 0;
            while i < mobs.len()
                invariant
                    i <= mobs@.len(),
                    w@ == head + mobs_bytes(mobs@.take(i as int)),
                decreases mobs@.len() - i,
            {
                push_mob(&mut w, mobs[i]);
                assert(mobs@.take(i + 1).drop_last() =~= mobs@.take(i as int));
                i = i + 1;
            }
            assert(mobs@.take(i as int) =~= mobs@);
        },
        NetMsg::Drops { dim, drops } => {
            w.push(5);
            w.push(*dim);
            codec::push_u16_le(&mut w, drops.len() as u16);
            let ghost head = w@;
            let mut i: usize = 0;
            while i < drops.len()
                invariant
                    i <= drops@.len(),
                    w@ == head + drops_bytes(drops@.take(i as int)),
                decreases drops@.len() - i,
            {
                push_drop(&mut w, drops[i]);
                assert(drops@.take(i + 1).drop_last() =~= drops@.take(i as int));
                i = i + 1;
            }
            assert(drops@.take(i as int) =~= drops@);
        },
        NetMsg::Hit { id, dmg, fx, fy, fz } => {
            w.push(6);
            codec::push_u16_le(&mut w, *id);
            codec::push_u32_le(&mut w, *dmg);
            codec::push_u32_le(&mut w, *fx);
            codec::push_u32_le(&mut w, *fy);
            codec::push_u32_le(&mut w, *fz);
        },
        NetMsg::TakeDrop { id } => {
            w.push(7);
            codec::push_u16_le(&mut w, *id);
        },
        NetMsg::Give { item, count } => {
            w.push(8);
            codec::push_u16_le(&mut w, *item);
            codec::push_u32_le(&mut w, *count);
        },
        NetMsg::Damage { amount } => {
            w.push(9);
            codec::push_u32_le(&mut w, *amount);
        },
        NetMsg::Chat { from, text } => {
            w.push(10);
            w.push(*from);
            let bytes = text.as_str().as_bytes();
            let n = if bytes.len() < MAX_CHAT_BYTES { bytes.len() } else { MAX_CHAT_BYTES };
            codec::push_u16_le(&mut w, n as u16);
            let ghost head = w@;
            let mut i: usize = 0;
            while i < n
                invariant
                    n <= bytes@.len(),
                    i <= n,
                    w@ == head + bytes@.take(i as int),
                decreases n - i,
            {
                w.push(bytes[i]);
                assert(bytes@.take(i + 1) =~= bytes@.take(i as int).push(bytes@[i as int]));
                i = i + 1;
            }
            assert(bytes@ == encode_utf8(text@));
            assert(bytes@.take(n as int) =~= chat_bytes(text@));
        },
    }
    let mut out: Vec<u8> = Vec::new();
    codec::push_u32_le(&mut out, w.len() as u32);
    codec::push_all(&mut out, w.as_slice());
    assert(w@ =~= msg_body(msg@));
    assert(out@ =~= spec_encode(msg@));
    out
}

/// The mob record at index `i` of a payload.
pub open spec fn mob_at(p: Seq<u8>, i: int) -> MobSnap {
    MobSnap {
        id: codec::le_u16_at(p, i),
        kind: p[i + 2],
        x: codec::le_u32_at(p, i + 3),
        y: codec::le_u32_at(p, i + 7),
        z: codec::le_u32_at(p, i + 11),
        yaw: codec::le_u32_at(p, i + 15),
        health: codec::le_u32_at(p, i + 19),
        walk: codec::le_u32_at(p, i + 23),
        flags: p[i + 27],
    }
}

/// The drop record at index `i` of a payload.
pub open spec fn drop_at(p: Seq<u8>, i: int) -> DropSnap {
    DropSnap {
        id: codec::le_u16_at(p, i),
        item: codec::le_u16_at(p, i + 2),
        x: codec::le_u32_at(p, i + 4),
        y: codec::le_u32_at(p, i + 8),
        z: codec::le_u32_at(p, i + 12),
    }
}

/// The text a chat payload's bytes stand for (malformed UTF-8 decoded
/// leniently).
pub open spec fn chat_text(b: Seq<u8>) -> Seq<char> {
    if valid_utf8(b) {
        decode_utf8(b)
    } else {
        codec::utf8_lossy(b)
    }
}

/// How many list entries a decoder takes for an announced count.
pub open spec fn snap_count(n: u16) -> int {
    if n as int <= MAX_SNAPS as int { n as int } else { MAX_SNAPS as int }
}

/// The message a payload holds, if it is complete and its tag is known.
/// Bytes after the message are ignored.
pub open spec fn spec_decode(p: Seq<u8>) -> Option<NetMsgView> {
    let n = p.len();
    if n < 1 {
        None
    } else if p[0] == 0 {
        if n >= 10 {
            Some(NetMsgView::Hello { seed: codec::le_u32_at(p, 1), day_t: codec::le_u32_at(p, 5), your_id: p[9] })
        } else {
            None
        }
    } else if p[0] == 1 {
        if n >= 15 {
            Some(NetMsgView::SetBlock {
                dim: p[1],
                x: codec::le_u32_at(p, 2) as i32,
                y: codec::le_u32_at(p, 6) as i32,
                z: codec::le_u32_at(p, 10) as i32,
                b: p[14],
            })
        } else {
            None
        }
    } else if p[0] == 2 {
        if n >= 23 {
            Some(NetMsgView::Pos {
                id: p[1],
                dim: p[2],
                x: codec::le_u32_at(p, 3),
                y: codec::le_u32_at(p, 7),
                z: codec::le_u32_at(p, 11),
                yaw: codec::le_u32_at(p, 15),
                day_t: codec::le_u32_at(p, 19),
            })
        } else {
            None
        }
    } else if p[0] == 3 {
        if n >= 2 {
            Some(NetMsgView::Leave { id: p[1] })
        } else {
            None
        }
    } else if p[0] == 4 {
        if n >= 4 && n >= 4 + 28 * snap_count(codec::le_u16_at(p, 2)) {
            Some(NetMsgView::Mobs {
                dim: p[1],
                mobs: Seq::new(snap_count(codec::le_u16_at(p, 2)) as nat, |k: int| mob_at(p, 4 + 28 * k)),
            })
        } else {
            None
        }
    } else if p[0] == 5 {
        if n >= 4 && n >= 4 + 16 * snap_count(codec::le_u16_at(p, 2)) {
            Some(NetMsgView::Drops {
                dim: p[1],
                drops: Seq::new(snap_count(codec::le_u16_at(p, 2)) as nat, |k: int| drop_at(p, 4 + 16 * k)),
            })
        } else {
            None
        }
    } else if p[0] == 6 {
        if n >= 19 {
            Some(NetMsgView::Hit {
                id: codec::le_u16_at(p, 1),
                dmg: codec::le_u32_at(p, 3),
                fx: codec::le_u32_at(p, 7),
                fy: codec::le_u32_at(p, 11),
                fz: codec::le_u32_at(p, 15),
            })
        } else {
            None
        }
    } else if p[0] == 7 {
        if n >= 3 {
            Some(NetMsgView::TakeDrop { id: codec::le_u16_at(p, 1) })
        } else {
            None
        }
    } else if p[0] == 8 {
        if n >= 7 {
            Some(NetMsgView::Give { item: codec::le_u16_at(p, 1), count: codec::le_u32_at(p, 3) })
        } else {
            None
        }
    } else if p[0] == 9 {
        if n >= 5 {
            Some(NetMsgView::Damage { amount: codec::le_u32_at(p, 1) })
        } else {
            None
        }
    } else if p[0] == 10 {
        if n >= 4 && n >= 4 + codec::le_u16_at(p, 2) {
            Some(NetMsgView::Chat { from: p[1], text: chat_text(p.subrange(4, 4 + codec::le_u16_at(p, 2))) })
        } else {
            None
        }
    } else {
        None
    }
}

fn rd_mob(p: &[u8], i: usize) -> (r: MobSnap)
    requires
        i + 28 <= p.len(),
    ensures
        r == mob_at(p@, i as int),
{
    MobSnap {
        id: codec::le_u16_from(p, i),
        kind: p[i + 2],
        x: codec::le_u32_from(p, i + 3),
        y: codec::le_u32_from(p, i + 7),
        z: codec::le_u32_from(p, i + 11),
        yaw: codec::le_u32_from(p, i + 15),
        health: codec::le_u32_from(p, i + 19),
        walk: codec::le_u32_from(p, i + 23),
        flags: p[i + 27],
    }
}

fn rd_drop(p: &[u8], i: usize) -> (r: DropSnap)
    requires
        i + 16 <= p.len(),
    ensures
        r == drop_at(p@, i as int),
{
    DropSnap {
        id: codec::le_u16_from(p, i),
        item: codec::le_u16_from(p, i + 2),
        x: codec::le_u32_from(p, i + 4),
        y: codec::le_u32_from(p, i + 8),
        z: codec::le_u32_from(p, i + 12),
    }
}

/// The text of chat bytes, decoded leniently.
fn chat_string(p: &[u8], start: usize, n: usize) -> (r: String)
    requires
        start + n <= p.len(),
    ensures
        r@ == chat_text(p@.subrange(start as int, start + n)),
{
    let mut bytes: Vec<u8> = Vec::new();
    let mut i: usize = 0;
    while i < n
        invariant
            start + n <= p.len(),
            i <= n,
            bytes@ == p@.subrange(start as int, start + i),
        decreases n - i,
    {
        bytes.push(p[start + i]);
        assert(bytes@ =~= p@.subrange(start as int, start + i + 1));
        i = i + 1;
    }
    codec::string_from_utf8_lossy(bytes.as_slice())
}

/// Decode one message payload (without its length prefix).
pub fn decode(p: &[u8]) -> (r: Option<NetMsg>)
    ensures
        match spec_decode(p@) {
            Some(v) => (r matches Some(m) && m@ == v),
            None => r is None,
        },
{
    let n = p.len();
    if n < 1 {
        return None;
    }
    let tag = p[0];
    if tag == 0 {
        if n < 10 {
            return None;
        }
        Some(NetMsg::Hello { seed: codec::le_u32_from(p, 1), day_t: codec::le_u32_from(p, 5), your_id: p[9] })
    } else if tag == 1 {
        if n < 15 {
            return None;
        }
        Some(NetMsg::SetBlock { dim: p[1], x: codec::le_u32_from(p, 2) as i32, y: codec::le_u32_from(p, 6) as i32, z: codec::le_u32_from(p, 10) as i32, b: p[14] })
    } else if tag == 2 {
        if n < 23 {
            return None;
        }
        Some(NetMsg::Pos {
            id: p[1],
            dim: p[2],
            x: codec::le_u32_from(p, 3),
            y: codec::le_u32_from(p, 7),
            z: codec::le_u32_from(p, 11),
            yaw: codec::le_u32_from(p, 15),
            day_t: codec::le_u32_from(p, 19),
        })
    } else if tag == 3 {
        if n < 2 {
            return None;
        }
        Some(NetMsg::Leave { id: p[1] })
    } else if tag == 4 {
        if n < 4 {
            return None;
        }
        let announced = codec::le_u16_from(p, 2) as usize;
        let count = if announced <= MAX_SNAPS { announced } else { MAX_SNAPS };
        if n < 4 + 28 * count {
            return None;
        }
        let mut mobs: Vec<MobSnap> = Vec::new();
        let mut k: usize = 0;
        while k < count
            invariant
                k <= count,
                count <= MAX_SNAPS,
                4 + 28 * count <= p@.len(),
                mobs@ == Seq::new(k as nat, |q: int| mob_at(p@, 4 + 28 * q)),
            decreases count - k,
        {
            mobs.push(rd_mob(p, 4 + 28 * k));
            k = k + 1;
            assert(mobs@ =~= Seq::new(k as nat, |q: int| mob_at(p@, 4 + 28 * q)));
        }
        Some(NetMsg::Mobs { dim: p[1], mobs })
    } else if tag == 5 {
        if n < 4 {
            return None;
        }
        let announced = codec::le_u16_from(p, 2) as usize;
        let count = if announced <= MAX_SNAPS { announced } else { MAX_SNAPS };
        if n < 4 + 16 * count {
            return None;
        }
        let mut drops: Vec<DropSnap> = Vec::new();
        let mut k: usize = 0;
        while k < count
            invariant
                k <= count,
                count <= MAX_SNAPS,
                4 + 16 * count <= p@.len(),
                drops@ == Seq::new(k as nat, |q: int| drop_at(p@, 4 + 16 * q)),
            decreases count - k,
        {
            drops.push(rd_drop(p, 4 + 16 * k));
            k = k + 1;
            assert(drops@ =~= Seq::new(k as nat, |q: int| drop_at(p@, 4 + 16 * q)));
        }
        Some(NetMsg::Drops { dim: p[1], drops })
    } else if tag == 6 {
        if n < 19 {
            return None;
        }
        Some(NetMsg::Hit { id: codec::le_u16_from(p, 1), dmg: codec::le_u32_from(p, 3), fx: codec::le_u32_from(p, 7), fy: codec::le_u32_from(p, 11), fz: codec::le_u32_from(p, 15) })
    } else if tag == 7 {
        if n < 3 {
            return None;
        }
        Some(NetMsg::TakeDrop { id: codec::le_u16_from(p, 1) })
    } else if tag == 8 {
        if n < 7 {
            return None;
        }
        Some(NetMsg::Give { item: codec::le_u16_from(p, 1), count: codec::le_u32_from(p, 3) })
    } else if tag == 9 {
        if n < 5 {
            return None;
        }
        Some(NetMsg::Damage { amount: codec::le_u32_from(p, 1) })
    } else if tag == 10 {
        if n < 4 {
            return None;
        }
        let len = codec::le_u16_from(p, 2) as usize;
        if n < 4 + len {
            return None;
        }
        Some(NetMsg::Chat { from: p[1], text: chat_string(p, 4, len) })
    } else {
        None
    }
}

proof fn lemma_le32(v: u32)
    ensures
        ((v as u8) as u32) | ((((v >> 8u32) as u8) as u32) << 8u32) | ((((v >> 16u32) as u8) as u32) << 16u32)
            | ((((v >> 24u32) as u8) as u32) << 24u32) == v,
{
    assert(((v as u8) as u32) | ((((v >> 8u32) as u8) as u32) << 8u32) | ((((v >> 16u32) as u8) as u32) << 16u32)
        | ((((v >> 24u32) as u8) as u32) << 24u32) == v) by (bit_vector);
}

proof fn lemma_le16(v: u16)
    ensures
        ((v as u8) as u16) | ((((v >> 8u16) as u8) as u16) << 8u16) == v,
{
    assert(((v as u8) as u16) | ((((v >> 8u16) as u8) as u16) << 8u16) == v) by (bit_vector);
}

proof fn lemma_mob_at(b: Seq<u8>, base: int, m: MobSnap)
    requires
        0 <= base,
        base + 28 <= b.len(),
        b.subrange(base, base + 28) == mob_bytes(m),
    ensures
        mob_at(b, base) == m,
{
    let t = mob_bytes(m);
    assert forall|k: int| 0 <= k < 28 implies b[base + k] == #[trigger] t[k] by {
        assert(b.subrange(base, base + 28)[k] == b[base + k]);
    }
    assert(b[base] == t[0] && b[base + 1] == t[1] && b[base + 2] == t[2]);
    assert(b[base + 3] == t[3] && b[base + 4] == t[4] && b[base + 5] == t[5] && b[base + 6] == t[6]);
    assert(b[base + 7] == t[7] && b[base + 8] == t[8] && b[base + 9] == t[9] && b[base + 10] == t[10]);
    assert(b[base + 11] == t[11] && b[base + 12] == t[12] && b[base + 13] == t[13] && b[base + 14] == t[14]);
    assert(b[base + 15] == t[15] && b[base + 16] == t[16] && b[base + 17] == t[17] && b[base + 18] == t[18]);
    assert(b[base + 19] == t[19] && b[base + 20] == t[20] && b[base + 21] == t[21] && b[base + 22] == t[22]);
    assert(b[base + 23] == t[23] && b[base + 24] == t[24] && b[base + 25] == t[25] && b[base + 26] == t[26]);
    assert(b[base + 27] == t[27]);
    lemma_le16(m.id);
    lemma_le32(m.x);
    lemma_le32(m.y);
    lemma_le32(m.z);
    lemma_le32(m.yaw);
    lemma_le32(m.health);
    lemma_le32(m.walk);
}

proof fn lemma_drop_at(b: Seq<u8>, base: int, d: DropSnap)
    requires
        0 <= base,
        base + 16 <= b.len(),
        b.subrange(base, base + 16) == drop_bytes(d),
    ensures
        drop_at(b, base) == d,
{
    let t = drop_bytes(d);
    assert forall|k: int| 0 <= k < 16 implies b[base + k] == #[trigger] t[k] by {
        assert(b.subrange(base, base + 16)[k] == b[base + k]);
    }
    assert(b[base] == t[0] && b[base + 1] == t[1] && b[base + 2] == t[2] && b[base + 3] == t[3]);
    assert(b[base + 4] == t[4] && b[base + 5] == t[5] && b[base + 6] == t[6] && b[base + 7] == t[7]);
    assert(b[base + 8] == t[8] && b[base + 9] == t[9] && b[base + 10] == t[10] && b[base + 11] == t[11]);
    assert(b[base + 12] == t[12] && b[base + 13] == t[13] && b[base + 14] == t[14] && b[base + 15] == t[15]);
    lemma_le16(d.id);
    lemma_le16(d.item);
    lemma_le32(d.x);
    lemma_le32(d.y);
    lemma_le32(d.z);
}

proof fn lemma_mobs_bytes(ms: Seq<MobSnap>)
    ensures
        mobs_bytes(ms).len() == 28 * ms.len(),
        forall|k: int| 0 <= k < ms.len() ==> #[trigger] mobs_bytes(ms).subrange(28 * k, 28 * k + 28) == mob_bytes(ms[k]),
    decreases ms.len(),
{
    if ms.len() > 0 {
        let init = ms.drop_last();
        lemma_mobs_bytes(init);
        let whole = mobs_bytes(ms);
        assert forall|k: int| 0 <= k < ms.len() implies #[trigger] whole.subrange(28 * k, 28 * k + 28) == mob_bytes(ms[k]) by {
            if k < ms.len() - 1 {
                assert(whole.subrange(28 * k, 28 * k + 28) =~= mobs_bytes(init).subrange(28 * k, 28 * k + 28));
                assert(init[k] == ms[k]);
            } else {
                assert(whole.subrange(28 * k, 28 * k + 28) =~= mob_bytes(ms.last()));
            }
        }
    }
}

proof fn lemma_drops_bytes(ds: Seq<DropSnap>)
    ensures
        drops_bytes(ds).len() == 16 * ds.len(),
        forall|k: int| 0 <= k < ds.len() ==> #[trigger] drops_bytes(ds).subrange(16 * k, 16 * k + 16) == drop_bytes(ds[k]),
    decreases ds.len(),
{
    if ds.len() > 0 {
        let init = ds.drop_last();
        lemma_drops_bytes(init);
        let whole = drops_bytes(ds);
        assert forall|k: int| 0 <= k < ds.len() implies #[trigger] whole.subrange(16 * k, 16 * k + 16) == drop_bytes(ds[k]) by {
            if k < ds.len() - 1 {
                assert(whole.subrange(16 * k, 16 * k + 16) =~= drops_bytes(init).subrange(16 * k, 16 * k + 16));
                assert(init[k] == ds[k]);
            } else {
                assert(whole.subrange(16 * k, 16 * k + 16) =~= drop_bytes(ds.last()));
            }
        }
    }
}

/// Messages the wire carries whole: at most `MAX_SNAPS` mobs or drops, and
/// chat text of at most `MAX_CHAT_BYTES` bytes of UTF-8.
pub open spec fn fits_wire(m: NetMsgView) -> bool {
    match m {
        NetMsgView::Mobs { mobs, .. } => mobs.len() <= MAX_SNAPS,
        NetMsgView::Drops { drops, .. } => drops.len() <= MAX_SNAPS,
        NetMsgView::Chat { text, .. } => encode_utf8(text).len() <= MAX_CHAT_BYTES,
        _ => true,
    }
}

/// Decoding the payload of an encoded message gives the message back, for
/// every message the wire carries whole; the frame's length prefix is the
/// payload length.
pub proof fn lemma_codec_roundtrip(m: NetMsgView)
    requires
        fits_wire(m),
    ensures
        spec_decode(msg_body(m)) == Some(m),
        spec_encode(m).len() == 4 + msg_body(m).len(),
        spec_encode(m).subrange(4, spec_encode(m).len() as int) == msg_body(m),
        codec::le_u32_at(spec_encode(m), 0) == msg_body(m).len() as u32,
{
    let b = msg_body(m);
    let e = spec_encode(m);
    assert(e.subrange(4, e.len() as int) =~= b);
    assert(e.subrange(0, 4) =~= codec::u32_le(b.len() as u32));
    codec::lemma_le_u32_field(e, 0, b.len() as u32);
    lemma_body_decodes(m);
}

proof fn lemma_body_decodes(m: NetMsgView)
    requires
        fits_wire(m),
    ensures
        spec_decode(msg_body(m)) == Some(m),
{
    match m {
        NetMsgView::Mobs { .. } => lemma_mobs_decode(m),
        NetMsgView::Drops { .. } => lemma_drops_decode(m),
        NetMsgView::Chat { .. } => lemma_chat_decode(m),
        NetMsgView::Pos { .. } => lemma_pos_decode(m),
        NetMsgView::Hit { .. } => lemma_hit_decode(m),
        _ => lemma_small_decode(m),
    }
}

proof fn lemma_small_decode(m: NetMsgView)
    requires
        !(m is Mobs || m is Drops || m is Chat || m is Pos || m is Hit),
    ensures
        spec_decode(msg_body(m)) == Some(m),
{
    let b = msg_body(m);
    match m {
        NetMsgView::Hello { seed, day_t, your_id } => {
            assert(b.subrange(1, 5) =~= codec::u32_le(seed));
            codec::lemma_le_u32_field(b, 1, seed);
            assert(b.subrange(5, 9) =~= codec::u32_le(day_t));
            codec::lemma_le_u32_field(b, 5, day_t);
        },
        NetMsgView::SetBlock { dim, x, y, z, b: blk } => {
            assert(b.subrange(2, 6) =~= codec::u32_le(x as u32));
            codec::lemma_le_u32_field(b, 2, x as u32);
            assert(b.subrange(6, 10) =~= codec::u32_le(y as u32));
            codec::lemma_le_u32_field(b, 6, y as u32);
            assert(b.subrange(10, 14) =~= codec::u32_le(z as u32));
            codec::lemma_le_u32_field(b, 10, z as u32);
            assert((x as u32) as i32 == x && (y as u32) as i32 == y && (z as u32) as i32 == z) by (bit_vector);
        },
        NetMsgView::TakeDrop { id } => {
            assert(b.subrange(1, 3) =~= codec::u16_le(id));
            codec::lemma_le_u16_field(b, 1, id);
        },
        NetMsgView::Give { item, count } => {
            assert(b.subrange(1, 3) =~= codec::u16_le(item));
            codec::lemma_le_u16_field(b, 1, item);
            assert(b.subrange(3, 7) =~= codec::u32_le(count));
            codec::lemma_le_u32_field(b, 3, count);
        },
        NetMsgView::Damage { amount } => {
            assert(b.subrange(1, 5) =~= codec::u32_le(amount));
            codec::lemma_le_u32_field(b, 1, amount);
        },
        _ => {},
    }
}

proof fn lemma_pos_decode(m: NetMsgView)
    requires
        m is Pos,
    ensures
        spec_decode(msg_body(m)) == Some(m),
{
    let b = msg_body(m);
    if let NetMsgView::Pos { id, dim, x, y, z, yaw, day_t } = m {
        assert(b.subrange(3, 7) =~= codec::u32_le(x));
        codec::lemma_le_u32_field(b, 3, x);
        assert(b.subrange(7, 11) =~= codec::u32_le(y));
        codec::lemma_le_u32_field(b, 7, y);
        assert(b.subrange(11, 15) =~= codec::u32_le(z));
        codec::lemma_le_u32_field(b, 11, z);
        assert(b.subrange(15, 19) =~= codec::u32_le(yaw));
        codec::lemma_le_u32_field(b, 15, yaw);
        assert(b.subrange(19, 23) =~= codec::u32_le(day_t));
        codec::lemma_le_u32_field(b, 19, day_t);
    }
}

proof fn lemma_hit_decode(m: NetMsgView)
    requires
        m is Hit,
    ensures
        spec_decode(msg_body(m)) == Some(m),
{
    let b = msg_body(m);
    if let NetMsgView::Hit { id, dmg, fx, fy, fz } = m {
        assert(b.subrange(1, 3) =~= codec::u16_le(id));
        codec::lemma_le_u16_field(b, 1, id);
        assert(b.subrange(3, 7) =~= codec::u32_le(dmg));
        codec::lemma_le_u32_field(b, 3, dmg);
        assert(b.subrange(7, 11) =~= codec::u32_le(fx));
        codec::lemma_le_u32_field(b, 7, fx);
        assert(b.subrange(11, 15) =~= codec::u32_le(fy));
        codec::lemma_le_u32_field(b, 11, fy);
        assert(b.subrange(15, 19) =~= codec::u32_le(fz));
        codec::lemma_le_u32_field(b, 15, fz);
    }
}

proof fn lemma_mobs_decode(m: NetMsgView)
    requires
        m is Mobs,
        fits_wire(m),
    ensures
        spec_decode(msg_body(m)) == Some(m),
{
    let b = msg_body(m);
    if let NetMsgView::Mobs { dim, mobs } = m {
        lemma_mobs_bytes(mobs);
        let n = mobs.len() as u16;
        assert(b.subrange(2, 4) =~= codec::u16_le(n));
        codec::lemma_le_u16_field(b, 2, n);
        assert(snap_count(n) == mobs.len());
        let got = Seq::new(snap_count(n) as nat, |k: int| mob_at(b, 4 + 28 * k));
        assert forall|k: int| 0 <= k < mobs.len() implies got[k] == mobs[k] by {
            assert(b.subrange(4 + 28 * k, 4 + 28 * k + 28) =~= mobs_bytes(mobs).subrange(28 * k, 28 * k + 28));
            lemma_mob_at(b, 4 + 28 * k, mobs[k]);
        }
        assert(got =~= mobs);
    }
}

proof fn lemma_drops_decode(m: NetMsgView)
    requires
        m is Drops,
        fits_wire(m),
    ensures
        spec_decode(msg_body(m)) == Some(m),
{
    let b = msg_body(m);
    if let NetMsgView::Drops { dim, drops } = m {
        lemma_drops_bytes(drops);
        let n = drops.len() as u16;
        assert(b.subrange(2, 4) =~= codec::u16_le(n));
        codec::lemma_le_u16_field(b, 2, n);
        assert(snap_count(n) == drops.len());
        let got = Seq::new(snap_count(n) as nat, |k: int| drop_at(b, 4 + 16 * k));
        assert forall|k: int| 0 <= k < drops.len() implies got[k] == drops[k] by {
            assert(b.subrange(4 + 16 * k, 4 + 16 * k + 16) =~= drops_bytes(drops).subrange(16 * k, 16 * k + 16));
            lemma_drop_at(b, 4 + 16 * k, drops[k]);
        }
        assert(got =~= drops);
    }
}

proof fn lemma_chat_decode(m: NetMsgView)
    requires
        m is Chat,
        fits_wire(m),
    ensures
        spec_decode(msg_body(m)) == Some(m),
{
    let b = msg_body(m);
    if let NetMsgView::Chat { from, text } = m {
        let bytes = chat_bytes(text);
        assert(bytes == encode_utf8(text));
        let n = bytes.len() as u16;
        assert(b.subrange(2, 4) =~= codec::u16_le(n));
        codec::lemma_le_u16_field(b, 2, n);
        assert(b.subrange(4, 4 + n) =~= bytes);
        vstd::utf8::encode_utf8_valid_utf8(text);
        vstd::utf8::encode_utf8_decode_utf8(text);
    }
}

// ---------------------------------------------------------------------------
// Receiving.
// ---------------------------------------------------------------------------

/// The longest payload a connection accepts; announcing a longer one drops
/// the connection.
pub const MAX_PAYLOAD: usize = 0x10_0000;

/// Reading the received bytes `b` from index `i`: the messages of the
/// complete frames there (a payload that does not decode is skipped), the
/// index where reading stopped (at an incomplete frame), and whether the
/// connection stays up (no frame announced more than `MAX_PAYLOAD`).
pub open spec fn frames_from(b: Seq<u8>, i: int) -> (Seq<NetMsgView>, int, bool)
    decreases b.len() - i,
{
    if i < 0 || b.len() - i < 4 {
        (Seq::empty(), i, true)
    } else {
        let n = codec::le_u32_at(b, i) as int;
        if n > MAX_PAYLOAD {
            (Seq::empty(), i, false)
        } else if b.len() - i - 4 < n {
            (Seq::empty(), i, true)
        } else {
            let rest = frames_from(b, i + 4 + n);
            let got = match spec_decode(b.subrange(i + 4, i + 4 + n)) {
                Some(m) => seq![m] + rest.0,
                None => rest.0,
            };
            (got, rest.1, rest.2)
        }
    }
}

pub open spec fn views(ms: Seq<NetMsg>) -> Seq<NetMsgView> {
    ms.map_values(|m: NetMsg| m@)
}

/// Take the complete messages off the front of a connection's receive
/// buffer (see `frames_from`); what follows the last complete frame stays
/// buffered. Returns the messages and whether the connection stays up.
pub fn take_messages(inbuf: &mut Vec<u8>) -> (r: (Vec<NetMsg>, bool))
    ensures
        views(r.0@) == frames_from(old(inbuf)@, 0).0,
        r.1 == frames_from(old(inbuf)@, 0).2,
        final(inbuf)@ == old(inbuf)@.subrange(frames_from(old(inbuf)@, 0).1, old(inbuf)@.len() as int),
{
    let ghost b = inbuf@;
    let len = inbuf.len();
    let mut msgs: Vec<NetMsg> = Vec::new();
    let mut i: usize = 0;
    let mut alive = true;
    loop
        invariant_except_break
            alive,
        invariant
            0 <= i <= len,
            len == b.len(),
            inbuf@ == b,
            frames_from(b, 0) == (views(msgs@) + frames_from(b, i as int).0, frames_from(b, i as int).1, frames_from(
                b,
                i as int,
            ).2),
        ensures
            0 <= i <= len,
            inbuf@ == b,
            frames_from(b, 0) == (views(msgs@), i as int, alive),
        decreases len - i,
    {
        if len - i < 4 {
            assert(views(msgs@) + Seq::<NetMsgView>::empty() =~= views(msgs@));
            break;
        }
        let n = codec::le_u32_from(inbuf.as_slice(), i) as usize;
        if n > MAX_PAYLOAD {
            alive = false;
            assert(views(msgs@) + Seq::<NetMsgView>::empty() =~= views(msgs@));
            break;
        }
        if len - i - 4 < n {
            assert(views(msgs@) + Seq::<NetMsgView>::empty() =~= views(msgs@));
            break;
        }
        let payload = vstd::slice::slice_subrange(inbuf.as_slice(), i + 4, i + 4 + n);
        let ghost before = views(msgs@);
        let ghost rest = frames_from(b, (i + 4 + n) as int);
        match decode(payload) {
            Some(m) => {
                msgs.push(m);
                assert(views(msgs@) =~= before.push(m@));
                assert(before + (seq![m@] + rest.0) =~= views(msgs@) + rest.0);
            },
            None => {},
        }
        i = i + 4 + n;
    }
    let mut left: Vec<u8> = Vec::new();
    let mut j: usize = i;
    while j < len
        invariant
            i <= j <= len,
            len == b.len(),
            inbuf@ == b,
            left@ == b.subrange(i as int, j as int),
        decreases len - j,
    {
        left.push(inbuf[j]);
        j = j + 1;
        assert(left@ =~= b.subrange(i as int, j as int));
    }
    *inbuf = left;
    (msgs, alive)
}

/// The bytes of messages sent one after another.
pub open spec fn encode_all(ms: Seq<NetMsgView>) -> Seq<u8>
    decreases ms.len(),
{
    if ms.len() == 0 {
        Seq::empty()
    } else {
        spec_encode(ms[0]) + encode_all(ms.drop_first())
    }
}

/// A message the wire carries whole has a payload well under the limit.
proof fn lemma_body_fits(m: NetMsgView)
    requires
        fits_wire(m),
    ensures
        msg_body(m).len() <= MAX_PAYLOAD,
{
    match m {
        NetMsgView::Mobs { mobs, .. } => {
            lemma_mobs_bytes(mobs);
        },
        NetMsgView::Drops { drops, .. } => {
            lemma_drops_bytes(drops);
        },
        _ => {},
    }
}

proof fn lemma_frames_after(p: Seq<u8>, ms: Seq<NetMsgView>)
    requires
        forall|k: int| 0 <= k < ms.len() ==> fits_wire(#[trigger] ms[k]),
    ensures
        frames_from(p + encode_all(ms), p.len() as int) == (ms, (p.len() + encode_all(ms).len()) as int, true),
    decreases ms.len(),
{
    let b = p + encode_all(ms);
    let i = p.len() as int;
    if ms.len() == 0 {
        assert(b =~= p);
        assert(ms =~= Seq::<NetMsgView>::empty());
    } else {
        let m0 = ms[0];
        let rest = ms.drop_first();
        let e = spec_encode(m0);
        let body = msg_body(m0);
        assert(fits_wire(m0));
        lemma_codec_roundtrip(m0);
        lemma_body_fits(m0);
        assert(encode_all(ms) == e + encode_all(rest));
        let n = body.len() as int;
        assert forall|k: int| 0 <= k < e.len() implies b[i + k] == #[trigger] e[k] by {
            assert(b[i + k] == encode_all(ms)[k]);
        }
        assert(b[i] == e[0] && b[i + 1] == e[1] && b[i + 2] == e[2] && b[i + 3] == e[3]);
        assert(codec::le_u32_at(b, i) == codec::le_u32_at(e, 0));
        assert(codec::le_u32_at(b, i) as int == n);
        assert(b.subrange(i + 4, i + 4 + n) =~= e.subrange(4, e.len() as int));
        assert forall|k: int| 0 <= k < rest.len() implies fits_wire(#[trigger] rest[k]) by {
            assert(rest[k] == ms[k + 1]);
        }
        let p2 = p + e;
        lemma_frames_after(p2, rest);
        assert(b =~= p2 + encode_all(rest));
        assert(p2.len() == i + 4 + n);
        assert(seq![m0] + rest =~= ms);
    }
}

/// What a read gives back of a write: the bytes of messages sent one after
/// another (each one the wire carries whole) are read back as the same
/// messages, in order, with nothing left buffered and the connection up.
pub proof fn lemma_stream_roundtrip(ms: Seq<NetMsgView>)
    requires
        forall|k: int| 0 <= k < ms.len() ==> fits_wire(#[trigger] ms[k]),
    ensures
        frames_from(encode_all(ms), 0) == (ms, encode_all(ms).len() as int, true),
{
    lemma_frames_after(Seq::empty(), ms);
    assert(Seq::<u8>::empty() + encode_all(ms) =~= encode_all(ms));
}


} // verus!
