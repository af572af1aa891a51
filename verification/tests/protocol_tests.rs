use minerust::codec::{read_string, read_varint_buf, write_string, write_varint, Buf, CodecError};
use minerust::mcclient::{
    chat_to_text, client_frame_len_ok, config_step, decode_frame, encode_frame, handshake_body, login_start_body,
    login_step, parse_chunk, play_step, position_body, read_paletted, skip_nbt, ConfigStep, JoinError, LoginStep,
    PlayStep,
};
use minerust::mcproto::{legacy_ping, login_disconnect, read_handshake, read_packet, sniff_minecraft, write_packet, Handshake, StatusInfo};
use minerust::blocks::Block;

#[test]
fn paletted_single_value() {
    // bpe=0, value=42, data_len=0 → 4096 cells of 42.
    let mut v = Vec::new();
    v.push(0u8);
    write_varint(&mut v, 42);
    write_varint(&mut v, 0);
    let mut b = Buf::new(v);
    let cells = read_paletted(&mut b, 4096).unwrap();
    assert_eq!(cells.len(), 4096);
    assert!(cells.iter().all(|&c| c == 42));
}

#[test]
fn paletted_indirect_unpacks_bits() {
    // bpe=4, palette [0, 7], one long packing indices: cell0=1,cell1=0,cell2=1...
    let mut v = Vec::new();
    v.push(4u8);
    write_varint(&mut v, 2); // palette len
    write_varint(&mut v, 0); // palette[0] -> air
    write_varint(&mut v, 7); // palette[1] -> id 7
    write_varint(&mut v, 1); // one long
    // per_long = 64/4 = 16 entries; set entry0=1, entry1=1, rest 0.
    let long: u64 = 0b0001_0001;
    v.extend_from_slice(&(long as i64).to_be_bytes());
    let mut b = Buf::new(v);
    let cells = read_paletted(&mut b, 4096).unwrap();
    assert_eq!(cells[0], 7);
    assert_eq!(cells[1], 7);
    assert_eq!(cells[2], 0);
}

#[test]
fn chat_json_flattens_to_text() {
    assert_eq!(chat_to_text(r#"{"text":"hello"}"#), "hello");
    assert_eq!(
        chat_to_text(r#"{"text":"<Steve> ","extra":[{"text":"hi there"}]}"#),
        "<Steve> hi there"
    );
    // No text field: fall back to the raw string.
    assert_eq!(chat_to_text("plain"), "plain");
}

#[test]
fn skip_nbt_handles_nested_compound() {
    // Nameless root compound { "a": int 5, "b": list<byte>[1,2] } end.
    let mut v = Vec::new();
    v.push(10); // root compound, no name
    v.push(3); // int tag
    v.extend_from_slice(&(1i16).to_be_bytes()); // name len
    v.push(b'a');
    v.extend_from_slice(&5i32.to_be_bytes());
    v.push(9); // list tag
    v.extend_from_slice(&(1i16).to_be_bytes());
    v.push(b'b');
    v.push(1); // list of bytes
    v.extend_from_slice(&2i32.to_be_bytes()); // length
    v.push(0xAA);
    v.push(0xBB);
    v.push(0); // end root
    v.push(0x77); // sentinel after the nbt
    let mut b = Buf::new(v);
    skip_nbt(&mut b).unwrap();
    assert_eq!(b.u8().unwrap(), 0x77);
}

#[test]
fn varint_roundtrip() {
    for &v in &[0i32, 1, 2, 127, 128, 255, 300, 25565, 2_147_483_647, -1, -2_147_483_648] {
        let mut buf = Vec::new();
        write_varint(&mut buf, v);
        let mut c = Buf::new(buf);
        assert_eq!(read_varint_buf(&mut c).unwrap(), v, "VarInt {v}");
    }
}

#[test]
fn varint_known_encodings() {
    // From the protocol spec's worked examples.
    let cases: &[(i32, &[u8])] = &[
        (0, &[0x00]),
        (1, &[0x01]),
        (127, &[0x7f]),
        (128, &[0x80, 0x01]),
        (255, &[0xff, 0x01]),
        (25565, &[0xdd, 0xc7, 0x01]),
        (2147483647, &[0xff, 0xff, 0xff, 0xff, 0x07]),
        (-1, &[0xff, 0xff, 0xff, 0xff, 0x0f]),
    ];
    for &(v, bytes) in cases {
        let mut buf = Vec::new();
        write_varint(&mut buf, v);
        assert_eq!(buf, bytes, "encoding of {v}");
    }
}

#[test]
fn string_roundtrip() {
    let mut buf = Vec::new();
    write_string(&mut buf, "MineRust ⛏");
    let mut c = Buf::new(buf);
    assert_eq!(read_string(&mut c).unwrap(), "MineRust ⛏");
}

#[test]
fn status_json_shape() {
    let s = StatusInfo::live(3, 16);
    let j = s.json(765);
    assert!(j.contains("\"protocol\":765"));
    assert!(j.contains("\"online\":3"));
    assert!(j.contains("\"max\":16"));
    assert!(j.contains("\"name\":\"MineRust\""));
    // Must be a single well-formed line with balanced braces.
    assert_eq!(j.matches('{').count(), j.matches('}').count());
}

#[test]
fn varint_errors() {
    let mut c = Buf::new(vec![0x80, 0x80]);
    assert_eq!(read_varint_buf(&mut c), Err(CodecError::UnexpectedEof));
    let mut c = Buf::new(vec![0xff, 0xff, 0xff, 0xff, 0xff, 0x01]);
    assert_eq!(read_varint_buf(&mut c), Err(CodecError::VarIntTooBig));
    assert_eq!(c.position(), 5);
    let mut buf = Vec::new();
    write_varint(&mut buf, 0x20_0000);
    let mut c = Buf::new(buf);
    assert_eq!(read_string(&mut c), Err(CodecError::StringTooLong));
    let mut buf = Vec::new();
    write_varint(&mut buf, 2);
    buf.push(0xff);
    buf.push(0xfe);
    let mut c = Buf::new(buf);
    assert_eq!(read_string(&mut c), Err(CodecError::BadUtf8));
}

#[test]
fn packet_framing_roundtrip() {
    let frame = write_packet(0x00, &[1, 2, 3]);
    assert_eq!(frame, vec![4, 0, 1, 2, 3]);
    let (id, mut body) = read_packet(frame[1..].to_vec()).unwrap();
    assert_eq!(id, 0);
    assert_eq!(body.u8().unwrap(), 1);
}

#[test]
fn sniff_and_legacy() {
    assert!(!sniff_minecraft(&[]));
    assert!(sniff_minecraft(&[0xFE]));
    assert!(sniff_minecraft(&[0x10, 0x00]));
    assert!(!sniff_minecraft(&[b'G', b'E', b'T']));
    let reply = legacy_ping(&StatusInfo::live(1, 8));
    assert_eq!(reply[0], 0xFF);
    let d = login_disconnect("bye");
    assert!(!d.is_empty());
}

#[test]
fn compressed_frames_roundtrip() {
    let body: Vec<u8> = (0..300u32).map(|i| (i % 7) as u8).collect();
    for &threshold in &[-1, 0, 64, 1000] {
        let out = encode_frame(threshold, 0x25, &body).unwrap();
        // length prefix, then the frame
        let mut c = Buf::new(out.clone());
        let n = read_varint_buf(&mut c).unwrap() as usize;
        let start = c.position();
        assert_eq!(out.len(), start + n);
        let (id, b) = decode_frame(threshold, out[start..].to_vec()).unwrap();
        assert_eq!(id, 0x25);
        assert_eq!(&b.data[b.pos..], &body[..]);
    }
    // Compression really happened above the threshold.
    let plain = encode_frame(-1, 0x25, &body).unwrap();
    let packed = encode_frame(64, 0x25, &body).unwrap();
    assert!(packed.len() < plain.len());
    assert!(client_frame_len_ok(0x80_0000));
    assert!(!client_frame_len_ok(0x80_0001));
    assert!(!client_frame_len_ok(-1));
}

#[test]
fn corrupt_compressed_frame_is_refused() {
    let mut frame = Vec::new();
    write_varint(&mut frame, 10);
    frame.extend_from_slice(&[1, 2, 3, 4]);
    assert_eq!(decode_frame(0, frame).err(), Some(CodecError::Zlib));
}

#[test]
fn login_and_configuration_steps() {
    let mut b = Buf::new(vec![]);
    assert!(matches!(login_step(0x02, &mut b), Ok(LoginStep::Enter(0x03, ref v)) if v.is_empty()));
    let mut buf = Vec::new();
    write_varint(&mut buf, 256);
    let mut b = Buf::new(buf);
    assert!(matches!(login_step(0x03, &mut b), Ok(LoginStep::SetCompression(256))));
    let mut b = Buf::new(vec![7]);
    match login_step(0x04, &mut b) {
        Ok(LoginStep::Reply(id, body)) => {
            assert_eq!(id, 0x02);
            assert_eq!(body, vec![7, 0]);
        }
        _ => panic!("plugin request must be answered"),
    }
    let mut buf = Vec::new();
    write_string(&mut buf, "go away");
    let mut b = Buf::new(buf);
    match login_step(0x00, &mut b) {
        Err(JoinError::LoginDisconnect(r)) => assert_eq!(r, "go away"),
        _ => panic!("expected a disconnect"),
    }
    let mut b = Buf::new(vec![]);
    assert!(matches!(login_step(0x01, &mut b), Err(JoinError::OnlineMode)));
    let mut b = Buf::new(vec![0, 0, 0, 0, 0, 0, 0, 9]);
    match config_step(0x03, &mut b, false) {
        Ok(ConfigStep::Reply(id, body)) => {
            assert_eq!(id, 0x03);
            assert_eq!(body, vec![0, 0, 0, 0, 0, 0, 0, 9]);
        }
        _ => panic!("keep alive must be echoed"),
    }
    let mut b = Buf::new(vec![0, 0]);
    assert!(matches!(config_step(0x04, &mut b, false), Err(JoinError::Read(CodecError::UnexpectedEof))));
    let mut b = Buf::new(vec![]);
    assert!(matches!(config_step(0x01, &mut b, false), Err(JoinError::ConfigDisconnect(_))));
    let mut b = Buf::new(vec![]);
    assert!(matches!(config_step(0x01, &mut b, true), Ok(ConfigStep::Ignore)));
    let mut b = Buf::new(vec![]);
    assert!(matches!(config_step(0x02, &mut b, true), Ok(ConfigStep::Finish(0x02, _))));
}

#[test]
fn join_packet_bodies() {
    let h = handshake_body("localhost", 25565);
    let mut expect = Vec::new();
    write_varint(&mut expect, 765);
    write_string(&mut expect, "localhost");
    expect.extend_from_slice(&25565u16.to_be_bytes());
    expect.push(2);
    assert_eq!(h, expect);
    let l = login_start_body("Steve");
    assert_eq!(l.len(), 6 + 16);
    assert!(l[6..].iter().all(|&b| b == 0));
    let p = position_body(1.5f64.to_bits(), 2.0f64.to_bits(), 3.0f64.to_bits(), 0.5f32.to_bits(), 0.0f32.to_bits());
    assert_eq!(&p[0..8], &1.5f64.to_be_bytes());
    assert_eq!(&p[24..28], &0.5f32.to_be_bytes());
    assert_eq!(p[32], 1);
}

#[test]
fn play_steps() {
    let mut b = Buf::new(vec![0, 0, 0, 42]);
    match play_step(0x33, &mut b, &[]) {
        Ok(PlayStep::Reply(id, body)) => {
            assert_eq!(id, 0x24);
            assert_eq!(body, vec![0, 0, 0, 42]);
        }
        _ => panic!("ping must be answered"),
    }
    let mut b = Buf::new(vec![]);
    match play_step(0x0c, &mut b, &[]) {
        Ok(PlayStep::Reply(id, body)) => {
            assert_eq!(id, 0x07);
            assert_eq!(body, 32.0f32.to_be_bytes().to_vec());
        }
        _ => panic!("batch must be acknowledged"),
    }
    let mut body = Vec::new();
    body.extend_from_slice(&1.5f64.to_be_bytes());
    body.extend_from_slice(&64.0f64.to_be_bytes());
    body.extend_from_slice(&(-2.0f64).to_be_bytes());
    body.extend_from_slice(&0.25f32.to_be_bytes());
    body.extend_from_slice(&0.0f32.to_be_bytes());
    body.push(0);
    write_varint(&mut body, 9);
    let mut b = Buf::new(body);
    match play_step(0x3e, &mut b, &[]) {
        Ok(PlayStep::Spawn { x, y, z, confirm, echo }) => {
            assert_eq!(f64::from_bits(x), 1.5);
            assert_eq!(f64::from_bits(y), 64.0);
            assert_eq!(f64::from_bits(z), -2.0);
            assert_eq!(confirm, vec![9]);
            assert_eq!(echo.len(), 33);
        }
        _ => panic!("teleport must be confirmed"),
    }
    let mut b = Buf::new(vec![]);
    assert!(matches!(play_step(0x29, &mut b, &[]), Ok(PlayStep::Joined(0))));
    let mut b = Buf::new(vec![]);
    assert!(matches!(play_step(0x67, &mut b, &[]), Ok(PlayStep::Reconfigure(0x0b, _))));
}

fn single_valued_section(out: &mut Vec<u8>, state: i32) {
    out.extend_from_slice(&4096i16.to_be_bytes());
    out.push(0);
    write_varint(out, state);
    write_varint(out, 0);
    out.push(0);
    write_varint(out, 1);
    write_varint(out, 0);
}

#[test]
fn chunk_sections_map_states() {
    let mut data = Vec::new();
    single_valued_section(&mut data, 1);
    for _ in 1..24 {
        single_valued_section(&mut data, 0);
    }
    let mut body = Vec::new();
    body.extend_from_slice(&2i32.to_be_bytes());
    body.extend_from_slice(&(-1i32).to_be_bytes());
    body.push(0); // empty heightmap NBT
    write_varint(&mut body, data.len() as i32);
    body.extend_from_slice(&data);
    body.push(0x55);
    let table = [(Block::Air, 0u16), (Block::Stone, 1u16)];
    let mut b = Buf::new(body);
    let col = parse_chunk(&mut b, &table).unwrap();
    assert_eq!(col.cx, 2);
    assert_eq!(col.cz, -1);
    assert_eq!(col.blocks.len(), 4096);
    assert_eq!(col.blocks[0], (32, -64, -16, Block::Stone, 1));
    assert_eq!(col.blocks[4095], (47, -49, -1, Block::Stone, 1));
    assert_eq!(b.u8().unwrap(), 0x55);
    // Data length past the end is refused.
    let mut body = Vec::new();
    body.extend_from_slice(&0i32.to_be_bytes());
    body.extend_from_slice(&0i32.to_be_bytes());
    body.push(0);
    write_varint(&mut body, 100);
    let mut b = Buf::new(body);
    assert_eq!(parse_chunk(&mut b, &table).err(), Some(CodecError::ChunkDataLen));
}

#[test]
fn malformed_fields_are_refused_by_kind() {
    let mut b = Buf::new(vec![1, 2, 3]);
    assert_eq!(b.skip(4), Err(CodecError::SkipPastEnd));
    assert_eq!(b.skip(3), Ok(()));
    let mut nbt = Buf::new(vec![13, 0, 0]);
    assert_eq!(skip_nbt(&mut nbt), Err(CodecError::BadNbtTag));
    let mut wide = Buf::new(vec![64, 0, 0]);
    assert_eq!(read_paletted(&mut wide, 4096), Err(CodecError::BadBitsPerEntry));
    let mut short = Buf::new(vec![0, 5, 2, 0, 0]);
    assert_eq!(read_paletted(&mut short, 4096), Err(CodecError::SkipPastEnd));
}

#[test]
fn chat_text_keeps_non_ascii_characters() {
    assert_eq!(chat_to_text(r#"{"text":"héllo"}"#), "héllo");
    assert_eq!(chat_to_text("{\"text\":\"\u{e9}t\u{e9} \u{2603}\"}"), "\u{e9}t\u{e9} \u{2603}");
    assert_eq!(chat_to_text("  plain\n"), "plain");
}

#[test]
fn varint_too_big_leaves_cursor_after_five_bytes() {
    let mut c = Buf::new(vec![0x80, 0x80, 0x80, 0x80, 0x80, 0x01]);
    assert_eq!(read_varint_buf(&mut c), Err(CodecError::VarIntTooBig));
    assert_eq!(c.position(), 5);
}

#[test]
fn handshake_fields_and_each_failing_read() {
    let mut v = Vec::new();
    write_varint(&mut v, 765);
    write_string(&mut v, "localhost");
    v.extend_from_slice(&[0x63, 0xdd]);
    write_varint(&mut v, 2);
    let mut b = Buf::new(v.clone());
    assert_eq!(read_handshake(&mut b), Ok(Handshake { protocol: 765, port: 25565, next_state: 2 }));
    // Port cut short.
    let mut b = Buf::new(v[..v.len() - 2].to_vec());
    assert_eq!(read_handshake(&mut b), Err(CodecError::UnexpectedEof));
    // Protocol VarInt too long.
    let mut b = Buf::new(vec![0xff, 0xff, 0xff, 0xff, 0xff, 0x01]);
    assert_eq!(read_handshake(&mut b), Err(CodecError::VarIntTooBig));
    // Address with a negative length.
    let mut w = Vec::new();
    write_varint(&mut w, 765);
    write_varint(&mut w, -1);
    let mut b = Buf::new(w);
    assert_eq!(read_handshake(&mut b), Err(CodecError::StringTooLong));
}
