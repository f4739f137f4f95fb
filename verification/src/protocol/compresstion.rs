//! Batches: a game datagram holds packets, each prefixed with its length as a
//! varint, and the whole batch may be deflate-compressed.

use vstd::prelude::*;
use std::io::Read as _;
use crate::protodef::codec::{
    check_varint_overlong, lemma_varint_decodes, lemma_varint_end_bounds, varint_at,
    varint_encode, varint_end, varint_overlong,
};
use crate::protodef::endian::i32_be_at;
use crate::protodef::reader::{Read, ReadError};
use crate::protodef::writer::Write;
use crate::protocol::packets::login::{check_login, login_at, Login};
use crate::protocol::packets::network_settings::{network_settings_bytes, NetworkSettings};
use crate::protocol::packets::play_status::{play_status_bytes, PlayStatus};
use crate::protocol::packets::request_network_settings::RequestNetworkSetting;
use crate::protocol::packets::{Packet, PacketKind, PacketTypes};

verus! {

/// What raw deflate (RFC 1951) decoding makes of `data`: `None` where `data`
/// is not a deflate stream.
pub uninterp spec fn raw_inflate(data: Seq<u8>) -> Option<Seq<u8>>;

/// `flate2::bufread::DeflateDecoder` over `buf`, read to the end with
/// `std::io::Read::read_to_end`: the bytes that raw deflate decoding gives,
/// or the error it stops on. The outcome depends on `buf` alone; how deflate
/// decodes is not stated, only named.
#[verifier::external_body]
fn inflate(buf: &[u8]) -> (r: std::io::Result<Vec<u8>>)
    ensures
        r is Ok <==> raw_inflate(buf@) is Some,
        r matches Ok(v) ==> v@ == raw_inflate(buf@).unwrap(),
{
    let mut decoder = flate2::bufread::DeflateDecoder::new(buf);
    let mut s: Vec<u8> = Vec::new();
    decoder.read_to_end(&mut s).map(|_| s)
}

/// Decompresses a deflate-compressed batch.
pub fn decompress(buf: &[u8]) -> (r: std::io::Result<Vec<u8>>)
    ensures
        r is Ok <==> raw_inflate(buf@) is Some,
        r matches Ok(v) ==> v@ == raw_inflate(buf@).unwrap(),
{
    inflate(buf)
}

/// Puts `done` in front of the frames that `rest` holds, keeping an error or
/// a panic as it is.
pub open spec fn prepend_frames(
    done: Seq<Seq<u8>>,
    rest: Option<Result<Seq<Seq<u8>>, ReadError>>,
) -> Option<Result<Seq<Seq<u8>>, ReadError>> {
    match rest {
        Some(Ok(fs)) => Some(Ok(done + fs)),
        other => other,
    }
}

/// The packets of a batch from `off` on: each a varint length and that many
/// bytes. `OutOfBounds` where a length runs past the end of `s`; `None` where
/// the splitter panics: a length of more than ten bytes, or a packet that
/// runs past the end.
pub open spec fn frames_at(s: Seq<u8>, off: int) -> Option<Result<Seq<Seq<u8>>, ReadError>>
    decreases s.len() - off,
{
    if off < 0 {
        None
    } else if off >= s.len() {
        Some(Ok(Seq::empty()))
    } else if varint_overlong(s, off) {
        None
    } else {
        match varint_end(s, off) {
            None => Some(Err(ReadError::OutOfBounds(s.len() as usize))),
            Some(e) => {
                let v = varint_at(s, off).unwrap().0;
                if e + v > s.len() {
                    None
                } else {
                    proof {
                        lemma_varint_end_bounds(s, off);
                    }
                    prepend_frames(seq![s.subrange(e, e + v)], frames_at(s, e + v))
                }
            },
        }
    }
}

/// The bytes of each packet.
pub open spec fn packet_bytes(v: Seq<Vec<u8>>) -> Seq<Seq<u8>> {
    v.map_values(|p: Vec<u8>| p@)
}

/// Splits a batch into its packets, or `None` where `get_packets` would
/// panic.
pub fn try_get_packets(buf: &[u8]) -> (r: Option<Result<Vec<Vec<u8>>, ReadError>>)
    ensures
        match frames_at(buf@, 0) {
            Some(Ok(fs)) => r matches Some(Ok(v)) && packet_bytes(v@) == fs,
            Some(Err(e)) => r matches Some(Err(x)) && x == e,
            None => r is None,
        },
{
    let mut packets: Vec<Vec<u8>> = Vec::new();
    let mut offset: u64 = 0;
    let len = buf.len() as u64;
    proof {
        assert(prepend_frames(packet_bytes(packets@), frames_at(buf@, 0)) == frames_at(buf@, 0))
            by {
            assert(packet_bytes(packets@) =~= Seq::<Seq<u8>>::empty());
            if let Some(Ok(fs)) = frames_at(buf@, 0) {
                assert(Seq::<Seq<u8>>::empty() + fs =~= fs);
            }
        }
    }
    while offset < len
        invariant
            len == buf@.len(),
            buf@.len() <= usize::MAX,
            offset <= len,
            frames_at(buf@, 0) == prepend_frames(packet_bytes(packets@), frames_at(buf@, offset as int)),
        decreases len - offset,
    {
        if check_varint_overlong(buf, offset) {
            return None;
        }
        proof {
            lemma_varint_end_bounds(buf@, offset as int);
        }
        let (value, size) = match buf.read_varint(offset) {
            Ok(p) => p,
            Err(e) => return Some(Err(e)),
        };
        let start = offset + size;
        if value > len - start {
            return None;
        }
        let edge = start + value;
        let dec = vstd::slice::slice_to_vec(
            vstd::slice::slice_subrange(buf, start as usize, edge as usize),
        );
        let ghost before = packets@;
        packets.push(dec);
        proof {
            assert(varint_end(buf@, offset as int) == Some(start as int));
            assert(dec@ == buf@.subrange(start as int, edge as int));
            assert(frames_at(buf@, offset as int) == prepend_frames(
                seq![dec@],
                frames_at(buf@, edge as int),
            ));
            assert(packet_bytes(packets@) =~= packet_bytes(before) + seq![dec@]);
            match frames_at(buf@, edge as int) {
                Some(Ok(fs)) => {
                    assert(packet_bytes(before) + (seq![dec@] + fs) =~= packet_bytes(packets@)
                        + fs);
                },
                _ => {},
            }
        }
        offset = edge;
    }
    proof {
        assert(packet_bytes(packets@) + Seq::<Seq<u8>>::empty() =~= packet_bytes(packets@));
    }
    Some(Ok(packets))
}

/// Splits a batch into its packets. A packet that runs past the end, or a
/// length of more than ten bytes, panics; `requires` leaves those out.
pub fn get_packets(buf: &[u8]) -> (r: Result<Vec<Vec<u8>>, ReadError>)
    requires
        frames_at(buf@, 0) is Some,
    ensures
        match frames_at(buf@, 0) {
            Some(Ok(fs)) => r matches Ok(v) && packet_bytes(v@) == fs,
            Some(Err(e)) => r matches Err(x) && x == e,
            None => false,
        },
{
    match try_get_packets(buf) {
        Some(r) => r,
        None => {
            proof {
                assert(false);
            }
            Ok(Vec::new())
        },
    }
}

/// What reading a packet at `off` gives: a varint id, then the body of a
/// login (id 1) or of a request for network settings (id 193). `None` where
/// the reader panics: another id, a varint of more than ten bytes, or a body
/// it panics on.
pub open spec fn packet_at(s: Seq<u8>, off: int) -> Option<Result<(u64, PacketKind), ReadError>> {
    if off < 0 || off >= u64::MAX || varint_overlong(s, off) {
        None
    } else {
        match varint_at(s, off) {
            None => Some(Err(ReadError::OutOfBounds(s.len() as usize))),
            Some((id, n)) => if id == 1 {
                match login_at(s, off + n) {
                    None => None,
                    Some(Err(e)) => Some(Err(e)),
                    Some(Ok((v, identity, client))) => Some(
                        Ok((1, PacketKind::Login(v, identity, client))),
                    ),
                }
            } else if id == 193 {
                if off + n + 4 > s.len() {
                    None
                } else {
                    Some(Ok((193, PacketKind::RequestNetworkSetting(i32_be_at(s, off + n)))))
                }
            } else {
                None
            },
        }
    }
}

/// Reads the packet at `offset`: its id, then its body.
pub fn parse_packet(buf: &[u8], offset: u64) -> (r: Result<Packet, ReadError>)
    requires
        packet_at(buf@, offset as int) is Some,
    ensures
        match packet_at(buf@, offset as int) {
            Some(Ok(p)) => r matches Ok(x) && x@ == p,
            Some(Err(e)) => r matches Err(x) && x == e,
            None => false,
        },
{
    let blen = buf.len();
    proof {
        lemma_varint_end_bounds(buf@, offset as int);
    }
    let (name_value, name_size) = match buf.read_varint(offset) {
        Ok(p) => p,
        Err(e) => return Err(e),
    };
    let x: PacketTypes = if name_value == 1 {
        match Login::from_vec_u8(buf, offset + name_size) {
            Ok(l) => PacketTypes::Login(l),
            Err(e) => return Err(e),
        }
    } else {
        match RequestNetworkSetting::from_vec_u8(buf, offset + name_size) {
            Ok(q) => PacketTypes::RequestNetworkSetting(q),
            Err(e) => return Err(e),
        }
    };
    Ok(Packet::from(x))
}

/// A packet read from the wire carries the id of its kind.
pub proof fn lemma_parsed_packet_id(s: Seq<u8>, off: int)
    ensures
        packet_at(s, off) matches Some(Ok((id, k))) ==> id == crate::protocol::packets::packet_id(k),
{
}

/// Reads the packet at `offset`, or `None` where `parse_packet` would panic.
pub fn try_parse_packet(buf: &[u8], offset: u64) -> (r: Option<Result<Packet, ReadError>>)
    ensures
        match packet_at(buf@, offset as int) {
            Some(Ok(p)) => r matches Some(Ok(x)) && x@ == p,
            Some(Err(e)) => r matches Some(Err(x)) && x == e,
            None => r is None,
        },
{
    let blen = buf.len();
    if offset == u64::MAX || check_varint_overlong(buf, offset) {
        return None;
    }
    proof {
        lemma_varint_end_bounds(buf@, offset as int);
    }
    let readable = match buf.read_varint(offset) {
        Err(_) => true,
        Ok((id, n)) => if id == 1 {
            check_login(buf, offset + n)
        } else if id == 193 {
            buf.len() as u64 - (offset + n) >= 4
        } else {
            false
        },
    };
    if readable {
        Some(parse_packet(buf, offset))
    } else {
        None
    }
}

/// The body of a packet the server sends.
pub open spec fn packet_body(k: PacketKind) -> Seq<u8> {
    match k {
        PacketKind::NetworkSettings(n) => network_settings_bytes(n),
        PacketKind::PlayStatus(p) => play_status_bytes(p),
        _ => Seq::empty(),
    }
}

/// A packet in a batch: its length as a varint, then its bytes.
pub open spec fn frame(b: Seq<u8>) -> Seq<u8> {
    varint_encode(b.len()) + b
}

/// Writes a packet the server sends, framed for a batch: the length of what
/// follows, the id, and the body. Only network settings and play status can
/// be written; any other kind panics.
pub fn compose_packet(packet: Packet) -> (r: std::io::Result<Vec<u8>>)
    requires
        packet.kind@ is NetworkSettings || packet.kind@ is PlayStatus,
    ensures
        r matches Ok(v) && v@ == frame(varint_encode(packet.id as nat) + packet_body(packet.kind@)),
{
    let mut buffer: Vec<u8> = Vec::new();
    let _ = buffer.write_var_int(packet.id);
    match packet.kind {
        PacketTypes::NetworkSettings(pkt) => {
            let _ = NetworkSettings::compose(&mut buffer, pkt);
        },
        PacketTypes::PlayStatus(pkt) => {
            let _ = PlayStatus::compose(&mut buffer, pkt);
        },
        _ => {
            proof {
                assert(false);
            }
        },
    }
    let mut result: Vec<u8> = Vec::new();
    let _ = result.write_var_int(buffer.len() as u64);
    let ghost head = result@;
    let ghost body = buffer@;
    result.append(&mut buffer);
    proof {
        assert(head =~= varint_encode(body.len()));
    }
    Ok(result)
}

/// A batch of packets: each framed, one after another.
pub open spec fn concat_frames(bodies: Seq<Seq<u8>>) -> Seq<u8>
    decreases bodies.len(),
{
    if bodies.len() == 0 {
        Seq::empty()
    } else {
        frame(bodies[0]) + concat_frames(bodies.drop_first())
    }
}

proof fn lemma_frames_at_concat(s: Seq<u8>, off: int, bodies: Seq<Seq<u8>>)
    requires
        0 <= off <= s.len(),
        s.subrange(off, s.len() as int) == concat_frames(bodies),
        forall|i: int| 0 <= i < bodies.len() ==> #[trigger] bodies[i].len() <= u64::MAX,
    ensures
        frames_at(s, off) == Some(Ok::<Seq<Seq<u8>>, ReadError>(bodies)),
    decreases bodies.len(),
{
    if bodies.len() == 0 {
        assert(s.subrange(off, s.len() as int).len() == 0);
        assert(bodies =~= Seq::<Seq<u8>>::empty());
    } else {
        let b0 = bodies[0];
        let rest = bodies.drop_first();
        let l = b0.len() as u64;
        let enc = varint_encode(l as nat);
        let t = s.subrange(off, s.len() as int);
        assert(t == enc + b0 + concat_frames(rest));
        assert(t.len() == enc.len() + b0.len() + concat_frames(rest).len());
        assert(s.subrange(off, off + enc.len()) =~= t.subrange(0, enc.len() as int));
        assert(t.subrange(0, enc.len() as int) =~= enc);
        lemma_varint_decodes(s, off, l);
        lemma_varint_end_bounds(s, off);
        let e = off + enc.len();
        assert(varint_end(s, off) == Some(e));
        assert(s.subrange(e, e + l) =~= t.subrange(enc.len() as int, enc.len() + l));
        assert(t.subrange(enc.len() as int, enc.len() + l) =~= b0);
        assert(s.subrange(e + l, s.len() as int) =~= t.subrange(enc.len() + l, t.len() as int));
        assert(t.subrange(enc.len() + l, t.len() as int) =~= concat_frames(rest));
        assert forall|i: int| 0 <= i < rest.len() implies #[trigger] rest[i].len() <= u64::MAX by {
            assert(rest[i] == bodies[i + 1]);
        }
        lemma_frames_at_concat(s, e + l, rest);
        assert(seq![b0] + rest =~= bodies);
    }
}

/// The batch law: splitting a batch of framed packets gives back the packets,
/// in order.
pub proof fn lemma_split_concat_frames(bodies: Seq<Seq<u8>>)
    requires
        forall|i: int| 0 <= i < bodies.len() ==> #[trigger] bodies[i].len() <= u64::MAX,
    ensures
        frames_at(concat_frames(bodies), 0) == Some(Ok::<Seq<Seq<u8>>, ReadError>(bodies)),
{
    let s = concat_frames(bodies);
    assert(s.subrange(0, s.len() as int) =~= s);
    lemma_frames_at_concat(s, 0, bodies);
}

/// What `compose_packet` writes splits back into the one packet it framed.
pub proof fn lemma_composed_packet_splits(id: u64, k: PacketKind)
    ensures
        frames_at(frame(varint_encode(id as nat) + packet_body(k)), 0) == Some(
            Ok::<Seq<Seq<u8>>, ReadError>(seq![varint_encode(id as nat) + packet_body(k)]),
        ),
{
    let b = varint_encode(id as nat) + packet_body(k);
    let bodies = seq![b];
    assert(b.len() <= u64::MAX) by {
        assert(varint_encode(id as nat).subrange(0, varint_encode(id as nat).len() as int)
            =~= varint_encode(id as nat));
        lemma_varint_decodes(varint_encode(id as nat), 0, id);
    }
    assert(bodies.drop_first() =~= Seq::<Seq<u8>>::empty());
    assert(concat_frames(Seq::<Seq<u8>>::empty()) =~= Seq::<u8>::empty());
    assert(concat_frames(bodies) =~= frame(b));
    lemma_split_concat_frames(bodies);
}

} // verus!
