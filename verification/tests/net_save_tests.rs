use minerust::blocks::Block;
use minerust::items::{FurnaceState, Item, ItemStack};
use minerust::net::{decode, encode, take_messages, DropSnap, MobSnap, NetMsg};
use minerust::save::{decode_save, encode_save, SaveData};

#[test]
fn codec_roundtrip() {
    for msg in [
        NetMsg::Hello { seed: 1337, day_t: 12.5f32.to_bits(), your_id: 2 },
        NetMsg::SetBlock { dim: 1, x: -5, y: 40, z: 999, b: 7 },
        NetMsg::Pos {
            id: 3,
            dim: 2,
            x: 1.5f32.to_bits(),
            y: 60.0f32.to_bits(),
            z: (-3.25f32).to_bits(),
            yaw: 0.7f32.to_bits(),
            day_t: 99.0f32.to_bits(),
        },
        NetMsg::Leave { id: 4 },
        NetMsg::Mobs {
            dim: 0,
            mobs: vec![MobSnap {
                id: 7,
                kind: 3,
                x: 1.0f32.to_bits(),
                y: 2.0f32.to_bits(),
                z: 3.0f32.to_bits(),
                yaw: 0.5f32.to_bits(),
                health: 18.0f32.to_bits(),
                flags: 3,
                walk: 2.5f32.to_bits(),
            }],
        },
        NetMsg::Drops {
            dim: 0,
            drops: vec![DropSnap { id: 9, item: 12, x: 4.0f32.to_bits(), y: 5.0f32.to_bits(), z: 6.0f32.to_bits() }],
        },
        NetMsg::Hit {
            id: 7,
            dmg: 5.5f32.to_bits(),
            fx: 0.0f32.to_bits(),
            fy: 1.0f32.to_bits(),
            fz: 2.0f32.to_bits(),
        },
        NetMsg::TakeDrop { id: 9 },
        NetMsg::Give { item: 12, count: 3 },
        NetMsg::Damage { amount: 4.0f32.to_bits() },
        NetMsg::Chat { from: 1, text: "hello world".into() },
    ] {
        let bytes = encode(&msg);
        let len = u32::from_le_bytes(bytes[0..4].try_into().unwrap()) as usize;
        assert_eq!(bytes.len(), 4 + len);
        assert_eq!(decode(&bytes[4..]).unwrap(), msg);
    }
}

#[test]
fn decode_rejects_short_and_unknown() {
    assert_eq!(decode(&[]), None);
    assert_eq!(decode(&[0, 1, 2]), None);
    assert_eq!(decode(&[200]), None);
    // A chat longer than the wire limit is cut.
    let long = "x".repeat(300);
    let bytes = encode(&NetMsg::Chat { from: 0, text: long });
    match decode(&bytes[4..]) {
        Some(NetMsg::Chat { text, .. }) => assert_eq!(text.len(), 240),
        other => panic!("expected chat, got {other:?}"),
    }
}

fn sample_save() -> SaveData {
    let mut inv = vec![None; 36];
    inv[0] = Some(ItemStack::new(Item::Coal, 12));
    inv[35] = Some(ItemStack::new(Item::IronPickaxe, 1));
    let mut furnace = FurnaceState::new();
    furnace.input = Some(ItemStack::new(Item::RawIron, 3));
    furnace.burn_left = 4.5f32.to_bits();
    let mut chest = vec![None; 27];
    chest[5] = Some(ItemStack::new(Item::Steak, 7));
    SaveData {
        seed: 99,
        day_t: 123.5f32.to_bits(),
        player_pos: [1.0f32.to_bits(), 50.0f32.to_bits(), (-3.0f32).to_bits()],
        yaw: 0.5f32.to_bits(),
        pitch: (-0.2f32).to_bits(),
        health: 17.0f32.to_bits(),
        hunger: 12.5f32.to_bits(),
        fly: true,
        creative: true,
        dim: 1,
        xp: 42,
        dragon_defeated: true,
        inventory: inv,
        armor: vec![None, Some(ItemStack::new(Item::IronChest, 1)), None, None],
        crops: vec![((1, 2, 3), 9.5f32.to_bits())],
        edits: vec![(0, 5, 40, -2, Block::Torch), (1, 0, 1, 0, Block::Netherrack)],
        furnaces: vec![((1, 2, 3), furnace)],
        chests: vec![((4, 5, 6), chest)],
        saplings: vec![((7, 8, 9), 12.0f32.to_bits())],
    }
}

#[test]
fn save_load_roundtrip() {
    let data = sample_save();
    let bytes = encode_save(&data);
    let loaded = decode_save(&bytes).expect("loads");
    assert_eq!(loaded.seed, 99);
    assert_eq!(f32::from_bits(loaded.day_t), 123.5);
    assert_eq!(loaded.player_pos.map(f32::from_bits), [1.0, 50.0, -3.0]);
    assert_eq!(f32::from_bits(loaded.health), 17.0);
    assert!(loaded.fly);
    assert!(loaded.creative);
    assert_eq!(loaded.inventory[0], Some(ItemStack::new(Item::Coal, 12)));
    assert_eq!(loaded.inventory[35], Some(ItemStack::new(Item::IronPickaxe, 1)));
    assert_eq!(
        loaded.edits,
        vec![(0, 5, 40, -2, Block::Torch), (1, 0, 1, 0, Block::Netherrack)]
    );
    assert_eq!(loaded.dim, 1);
    assert_eq!(loaded.armor[1], Some(ItemStack::new(Item::IronChest, 1)));
    assert_eq!(loaded.crops, vec![((1, 2, 3), 9.5f32.to_bits())]);
    assert_eq!(loaded.xp, 42);
    assert!(loaded.dragon_defeated);
    assert_eq!(loaded.furnaces[0].0, (1, 2, 3));
    assert_eq!(loaded.furnaces[0].1.input, Some(ItemStack::new(Item::RawIron, 3)));
    assert_eq!(f32::from_bits(loaded.furnaces[0].1.burn_left), 4.5);
    assert_eq!(loaded.chests[0].1[5], Some(ItemStack::new(Item::Steak, 7)));
    assert_eq!(loaded.saplings, vec![((7, 8, 9), 12.0f32.to_bits())]);
}

#[test]
fn save_layout_and_damage() {
    let data = sample_save();
    let bytes = encode_save(&data);
    // header 48, slots 400, five counted lists
    assert_eq!(bytes.len(), 448 + 4 + 16 + 4 + 2 * 14 + 4 + 54 + 4 + 282 + 4 + 16);
    assert_eq!(&bytes[0..4], &0x4D52_5335u32.to_le_bytes());
    // Wrong magic or a cut file reads as nothing.
    let mut bad = bytes.clone();
    bad[0] ^= 1;
    assert!(decode_save(&bad).is_none());
    assert!(decode_save(&bytes[..bytes.len() - 1]).is_none());
    // Trailing bytes are ignored.
    let mut long = bytes.clone();
    long.push(7);
    assert!(decode_save(&long).is_some());
    // A stack of zero items reads back as an empty slot.
    let mut d = sample_save();
    d.inventory[3] = Some(ItemStack::new(Item::Coal, 0));
    let back = decode_save(&encode_save(&d)).unwrap();
    assert_eq!(back.inventory[3], None);
}

#[test]
fn receive_buffer_yields_complete_frames_only() {
    let mut buf = encode(&NetMsg::Leave { id: 3 });
    buf.extend_from_slice(&[2, 0, 0, 0, 0xEE, 0xEE]);
    buf.extend_from_slice(&encode(&NetMsg::Chat { from: 1, text: "hi".to_string() }));
    let partial = encode(&NetMsg::Leave { id: 9 });
    buf.extend_from_slice(&partial[..3]);
    let (msgs, alive) = take_messages(&mut buf);
    assert!(alive);
    assert_eq!(msgs, vec![NetMsg::Leave { id: 3 }, NetMsg::Chat { from: 1, text: "hi".to_string() }]);
    assert_eq!(buf, partial[..3].to_vec());
    buf.extend_from_slice(&partial[3..]);
    let (msgs, alive) = take_messages(&mut buf);
    assert!(alive);
    assert_eq!(msgs, vec![NetMsg::Leave { id: 9 }]);
    assert!(buf.is_empty());
}

#[test]
fn oversized_frame_drops_the_connection() {
    let mut buf = encode(&NetMsg::Leave { id: 1 });
    buf.extend_from_slice(&[0, 0, 0x20, 0, 1, 2]);
    let (msgs, alive) = take_messages(&mut buf);
    assert!(!alive);
    assert_eq!(msgs, vec![NetMsg::Leave { id: 1 }]);
    assert_eq!(buf, vec![0, 0, 0x20, 0, 1, 2]);
}
