//! Minecraft Java Edition wire-protocol compatibility for the host: the
//! Server List Ping (modern and pre-1.7 legacy), and a login attempt
//! answered with a clean disconnect. Packets are VarInt-length-prefixed,
//! uncompressed frames of a VarInt packet id and a body.

use vstd::prelude::*;
use crate::codec;
use crate::codec::{Buf, CodecError};
use crate::text;

verus! {

/// A point-in-time view of the server, used to answer a ping.
pub struct StatusInfo {
    pub version_name: String,
    pub online: i32,
    pub max: i32,
    pub motd: String,
    pub login_message: String,
}

/// The version name advertised.
pub open spec fn live_version_name() -> Seq<char> {
    "MineRust"@
}

/// The message of the day, with its color codes.
pub open spec fn live_motd() -> Seq<char> {
    "\u{00a7}6MineRust\u{00a7}r \u{00a7}7\u{2014} a Rust voxel sandbox"@
}

/// The reason shown to a client that tries to log in.
pub open spec fn live_login_message() -> Seq<char> {
    "\u{00a7}6MineRust\n\u{00a7}7This world runs the native MineRust client.\n\u{00a7}7The Minecraft protocol is supported for the server list ping."@
}

/// The status response JSON for a snapshot and a protocol number.
pub open spec fn spec_status_json(version_name: Seq<char>, protocol: i32, max: i32, online: i32, motd: Seq<char>) -> Seq<char> {
    "{\"version\":{\"name\":\""@ + text::spec_json_escape(version_name) + "\",\"protocol\":"@
        + text::decimal(protocol as int) + "},\"players\":{\"max\":"@ + text::decimal(max as int)
        + ",\"online\":"@ + text::decimal(online as int) + ",\"sample\":[]},\"description\":{\"text\":\""@
        + text::spec_json_escape(motd) + "\"}}"@
}

impl StatusInfo {
    /// Build the snapshot MineRust advertises, given the live player count.
    pub fn live(online: i32, max: i32) -> (r: StatusInfo)
        ensures
            r.version_name@ == live_version_name(),
            r.online == online,
            r.max == max,
            r.motd@ == live_motd(),
            r.login_message@ == live_login_message(),
    {
        StatusInfo {
            version_name: "MineRust".to_string(),
            online,
            max,
            motd: "\u{00a7}6MineRust\u{00a7}r \u{00a7}7\u{2014} a Rust voxel sandbox".to_string(),
            login_message: "\u{00a7}6MineRust\n\u{00a7}7This world runs the native MineRust client.\n\u{00a7}7The Minecraft protocol is supported for the server list ping.".to_string(),
        }
    }

    /// The status response JSON, with `protocol` echoed from the client's
    /// handshake so it always renders as version-compatible.
    pub fn json(&self, protocol: i32) -> (r: String)
        ensures
            r@ == spec_status_json(self.version_name@, protocol, self.max, self.online, self.motd@),
    {
        let mut out: Vec<char> = Vec::new();
        text::push_str(&mut out, "{\"version\":{\"name\":\"");
        text::push_json_escaped(&mut out, self.version_name.as_str());
        text::push_str(&mut out, "\",\"protocol\":");
        text::push_decimal(&mut out, protocol);
        text::push_str(&mut out, "},\"players\":{\"max\":");
        text::push_decimal(&mut out, self.max);
        text::push_str(&mut out, ",\"online\":");
        text::push_decimal(&mut out, self.online);
        text::push_str(&mut out, ",\"sample\":[]},\"description\":{\"text\":\"");
        text::push_json_escaped(&mut out, self.motd.as_str());
        text::push_str(&mut out, "\"}}");
        assert(out@ =~= spec_status_json(self.version_name@, protocol, self.max, self.online, self.motd@));
        text::string_from_chars(out.as_slice())
    }
}

// ---------------------------------------------------------------------------
// Packet framing (uncompressed).
// ---------------------------------------------------------------------------

/// Largest frame a client may announce.
pub const MAX_FRAME_LEN: i32 = 0x20_0000;

/// One packet on the wire: the VarInt length of (id, body), the VarInt id,
/// then the body.
pub open spec fn spec_frame(id: i32, body: Seq<u8>) -> Seq<u8> {
    let inner = codec::varint_bytes(id as u32) + body;
    codec::varint_bytes((inner.len() as i32) as u32) + inner
}

/// Write one packet: a VarInt id followed by `body`, length-prefixed.
pub fn write_packet(id: i32, body: &[u8]) -> (r: Vec<u8>)
    ensures
        r@ == spec_frame(id, body@),
{
    let mut inner: Vec<u8> = Vec::new();
    codec::write_varint(&mut inner, id);
    codec::push_all(&mut inner, body);
    let mut out: Vec<u8> = Vec::new();
    codec::write_varint(&mut out, inner.len() as i32);
    codec::push_all(&mut out, inner.as_slice());
    assert(out@ =~= spec_frame(id, body@));
    out
}

/// Is an announced frame length acceptable? Negative lengths and lengths
/// past the frame limit are refused.
pub fn frame_len_ok(len: i32) -> (r: bool)
    ensures
        r == (0 <= len <= MAX_FRAME_LEN),
{
    0 <= len && len <= MAX_FRAME_LEN
}

/// Split a received frame into its packet id and a cursor over the body.
pub fn read_packet(frame: Vec<u8>) -> (r: Result<(i32, Buf), CodecError>)
    ensures
        match codec::spec_read_varint(frame@, 0) {
            Ok((id, end)) => (r matches Ok((rid, body)) && rid == id && body.data@ == frame@
                && body.pos == end && body.wf()),
            Err(e) => r == Err::<(i32, Buf), CodecError>(e),
        },
{
    let mut c = Buf::new(frame);
    match codec::read_varint_buf(&mut c) {
        Ok(id) => Ok((id, c)),
        Err(e) => Err(e),
    }
}

// ---------------------------------------------------------------------------
// Connection decisions.
// ---------------------------------------------------------------------------

/// Does this freshly-accepted connection look like a Minecraft client,
/// judging by the first bytes it sent (`peek`, at most the three peeked)?
/// A legacy ping starts with 0xFE; a handshake has packet id 0 right after
/// its length VarInt (one byte long, or two when its high bit is set).
/// Silence (no bytes) is not taken for Minecraft.
pub fn sniff_minecraft(peek: &[u8]) -> (r: bool)
    ensures
        r == (peek@.len() >= 1 && (peek@[0] == 0xfe || ({
            let id_pos: int = if peek@[0] & 0x80 == 0 { 1 } else { 2 };
            peek@.len() > id_pos && peek@[id_pos] == 0
        }))),
{
    if peek.len() < 1 {
        return false;
    }
    if peek[0] == 0xFE {
        return true;
    }
    let id_pos: usize = if peek[0] & 0x80 == 0 { 1 } else { 2 };
    peek.len() > id_pos && peek[id_pos] == 0x00
}

/// A client's opening handshake.
#[derive(Clone, Copy, PartialEq, Eq, Debug, Structural)]
pub struct Handshake {
    pub protocol: i32,
    pub port: u16,
    pub next_state: i32,
}

/// The handshake that starts at byte `i` of `s`, with the index past it;
/// or the error of the first field that cannot be read (a port cut short
/// is an unexpected end).
pub open spec fn spec_read_handshake(s: Seq<u8>, i: int) -> Result<(Handshake, int), CodecError> {
    match codec::spec_read_varint(s, i) {
        Err(e) => Err(e),
        Ok((protocol, a)) => match codec::spec_read_string(s, a, false) {
            Err(e) => Err(e),
            Ok((_, b)) => if !codec::has_bytes(s, b, 2) {
                Err(CodecError::UnexpectedEof)
            } else {
                match codec::spec_read_varint(s, b + 2) {
                    Err(e) => Err(e),
                    Ok((next_state, e)) => Ok((Handshake { protocol, port: codec::be_u16_at(s, b), next_state }, e)),
                }
            },
        },
    }
}

/// Parse a handshake body: protocol VarInt, server address string, port,
/// next-state VarInt.
pub fn read_handshake(body: &mut Buf) -> (r: Result<Handshake, CodecError>)
    requires
        old(body).wf(),
    ensures
        final(body).wf(),
        final(body).data@ == old(body).data@,
        match spec_read_handshake(old(body).data@, old(body).pos as int) {
            Ok((h, e)) => r == Ok::<Handshake, CodecError>(h) && final(body).pos == e,
            Err(e) => r == Err::<Handshake, CodecError>(e),
        },
{
    let protocol = match codec::read_varint_buf(body) {
        Ok(v) => v,
        Err(e) => {
            return Err(e);
        },
    };
    let _addr = match codec::read_string(body) {
        Ok(s) => s,
        Err(e) => {
            return Err(e);
        },
    };
    let port = match body.u16() {
        Ok(p) => p,
        Err(e) => {
            return Err(e);
        },
    };
    let next_state = match codec::read_varint_buf(body) {
        Ok(v) => v,
        Err(e) => {
            return Err(e);
        },
    };
    Ok(Handshake { protocol, port, next_state })
}

/// Where a connection goes after its handshake.
#[derive(Clone, Copy, PartialEq, Eq, Debug, Structural)]
pub enum Route {
    Status,
    Login,
    Close,
}

/// Next state 1 asks for status, 2 for login; anything else ends the
/// connection.
pub fn route(next_state: i32) -> (r: Route)
    ensures
        r == (if next_state == 1 {
            Route::Status
        } else if next_state == 2 {
            Route::Login
        } else {
            Route::Close
        }),
{
    match next_state {
        1 => Route::Status,
        2 => Route::Login,
        _ => Route::Close,
    }
}

/// What the status state does with one client packet.
pub enum StatusReply {
    /// Send these bytes and wait for the next packet.
    Send(Vec<u8>),
    /// Send these bytes and end the connection.
    SendAndClose(Vec<u8>),
    /// End the connection.
    Close,
}

/// The eight payload bytes of a Ping (or zero when they are missing).
pub open spec fn ping_token(body: Seq<u8>, pos: int) -> u64 {
    if codec::has_bytes(body, pos, 8) {
        codec::be_u64_at(body, pos)
    } else {
        0
    }
}

/// Status state: a Status Request (0x00) is answered with the status JSON;
/// a Ping (0x01) has its payload echoed back as Pong and ends the exchange;
/// anything else ends the connection.
pub fn status_reply(status: &StatusInfo, protocol: i32, id: i32, body: &mut Buf) -> (r: StatusReply)
    requires
        old(body).wf(),
    ensures
        final(body).wf(),
        id == 0 ==> (r matches StatusReply::Send(bytes) && bytes@ == spec_frame(
            0,
            codec::string_bytes(spec_status_json(status.version_name@, protocol, status.max, status.online, status.motd@)),
        )),
        id == 1 ==> (r matches StatusReply::SendAndClose(bytes) && bytes@ == spec_frame(
            1,
            codec::u64_be(ping_token(old(body).data@, old(body).pos as int)),
        )),
        id != 0 && id != 1 ==> r is Close,
{
    if id == 0 {
        let json = status.json(protocol);
        let mut payload: Vec<u8> = Vec::new();
        codec::write_string(&mut payload, json.as_str());
        StatusReply::Send(write_packet(0x00, payload.as_slice()))
    } else if id == 1 {
        let token: u64 = match body.u64() {
            Ok(t) => t,
            Err(_) => 0,
        };
        let mut payload: Vec<u8> = Vec::new();
        codec::push_u64_be(&mut payload, token);
        assert(payload@ =~= codec::u64_be(token));
        StatusReply::SendAndClose(write_packet(0x01, payload.as_slice()))
    } else {
        StatusReply::Close
    }
}

/// The chat-component JSON of a login disconnect reason.
pub open spec fn spec_disconnect_reason(message: Seq<char>) -> Seq<char> {
    "{\"text\":\""@ + text::spec_json_escape(message) + "\",\"color\":\"gold\"}"@
}

/// Login state: a Disconnect (login id 0x00) carrying a gold chat-component
/// JSON of the message.
pub fn login_disconnect(message: &str) -> (r: Vec<u8>)
    ensures
        r@ == spec_frame(0, codec::string_bytes(spec_disconnect_reason(message@))),
{
    let mut out: Vec<char> = Vec::new();
    text::push_str(&mut out, "{\"text\":\"");
    text::push_json_escaped(&mut out, message);
    text::push_str(&mut out, "\",\"color\":\"gold\"}");
    assert(out@ =~= spec_disconnect_reason(message@));
    let reason = text::string_from_chars(out.as_slice());
    let mut payload: Vec<u8> = Vec::new();
    codec::write_string(&mut payload, reason.as_str());
    write_packet(0x00, payload.as_slice())
}

/// The fields of the legacy ping reply: a section-sign-1 marker, then the
/// protocol number claimed for the legacy format, the version name, the
/// MOTD without color codes, and the player counts, separated by NULs.
pub open spec fn spec_legacy_fields(status_name: Seq<char>, motd: Seq<char>, online: i32, max: i32) -> Seq<char> {
    seq![text::section_sign(), '1', '\0'] + "127"@ + seq!['\0'] + status_name + seq!['\0']
        + text::spec_strip_section(motd) + seq!['\0'] + text::decimal(online as int) + seq!['\0']
        + text::decimal(max as int)
}

/// Big-endian bytes of UTF-16 code units.
pub open spec fn units_be(units: Seq<u16>) -> Seq<u8>
    decreases units.len(),
{
    if units.len() == 0 {
        Seq::empty()
    } else {
        units_be(units.drop_last()) + codec::u16_be(units.last())
    }
}

/// Pre-1.7 "legacy" Server List Ping reply: a 0xFF kick packet whose body
/// is the UTF-16BE field string, prefixed by its length in code units.
pub open spec fn spec_legacy_reply(status_name: Seq<char>, motd: Seq<char>, online: i32, max: i32) -> Seq<u8> {
    let units = text::utf16_units(spec_legacy_fields(status_name, motd, online, max));
    seq![0xffu8] + codec::u16_be(units.len() as u16) + units_be(units)
}

/// Pre-1.7 "legacy" Server List Ping: the reply bytes for a snapshot.
pub fn legacy_ping(status: &StatusInfo) -> (r: Vec<u8>)
    ensures
        r@ == spec_legacy_reply(status.version_name@, status.motd@, status.online, status.max),
{
    let mut fields: Vec<char> = Vec::new();
    fields.push('\u{00a7}');
    fields.push('1');
    fields.push('\0');
    text::push_str(&mut fields, "127");
    fields.push('\0');
    text::push_str(&mut fields, status.version_name.as_str());
    fields.push('\0');
    text::push_stripped(&mut fields, status.motd.as_str());
    fields.push('\0');
    text::push_decimal(&mut fields, status.online);
    fields.push('\0');
    text::push_decimal(&mut fields, status.max);
    assert(fields@ =~= spec_legacy_fields(status.version_name@, status.motd@, status.online, status.max));
    let mut units: Vec<u16> = Vec::new();
    text::push_utf16(&mut units, fields.as_slice());
    assert(units@ =~= text::utf16_units(fields@));
    let mut out: Vec<u8> = Vec::new();
    out.push(0xFF);
    codec::push_u16_be(&mut out, units.len() as u16);
    let ghost head = out@;
    let mut i: usize = 0;
    while i < units.len()
        invariant
            i <= units@.len(),
            out@ == head + units_be(units@.take(i as int)),
        decreases units@.len() - i,
    {
        codec::push_u16_be(&mut out, units[i]);
        assert(units@.take(i + 1).drop_last() =~= units@.take(i as int));
        assert(out@ =~= head + units_be(units@.take(i + 1)));
        i = i + 1;
    }
    assert(units@.take(i as int) =~= units@);
    assert(out@ =~= spec_legacy_reply(status.version_name@, status.motd@, status.online, status.max));
    out
}

} // verus!
