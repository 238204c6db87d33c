//! Binary layout of the TPACKET_V3 ring: little-endian field readers,
//! the decoded block-descriptor and per-packet header types, and the
//! ring-geometry request with its sizing invariant.
use vstd::prelude::*;

verus! {

/// Ownership flag value meaning the kernel owns the block.
pub const TP_STATUS_KERNEL: u8 = 0;

/// Low status bit meaning the consumer owns the block.
pub const TP_STATUS_USER: u8 = 1;

/// Protocol version selector for the three-part ring protocol.
pub const TPACKET_V3: i32 = 2;

/// Feature-request bit asking the kernel to fill the flow hash.
pub const TP_FT_REQ_FILL_RXHASH: u32 = 1;

/// Byte offset of the 4-byte ownership/status word in a block's header.
pub const TP_BLK_STATUS_OFFSET: usize = 8;

/// Fixed size of the descriptor at the start of every block.
pub const TP_BLOCK_HDR_LEN: usize = 48;

/// Fixed size of the header at the start of every packet record.
pub const TP_PACKET_HDR_LEN: usize = 40;

/// The 16-bit little-endian integer held at bytes `i..i + 2` of `s`.
pub open spec fn le16(s: Seq<u8>, i: int) -> int {
    s[i] + s[i + 1] * 0x100
}

/// The 32-bit little-endian integer held at bytes `i..i + 4` of `s`.
pub open spec fn le32(s: Seq<u8>, i: int) -> int {
    s[i] + s[i + 1] * 0x100 + s[i + 2] * 0x10000 + s[i + 3] * 0x1000000
}

/// The 64-bit little-endian integer held at bytes `i..i + 8` of `s`.
pub open spec fn le64(s: Seq<u8>, i: int) -> int {
    le32(s, i) + le32(s, i + 4) * 0x100000000
}

/// Reads the little-endian `u16` at `b[i..i + 2]`.
pub fn read_le_u16(b: &[u8], i: usize) -> (r: u16)
    requires
        i + 2 <= b@.len(),
    ensures
        r == le16(b@, i as int),
{
    b[i] as u16 + b[i + 1] as u16 * 0x100
}

/// Reads the little-endian `u32` at `b[i..i + 4]`.
pub fn read_le_u32(b: &[u8], i: usize) -> (r: u32)
    requires
        i + 4 <= b@.len(),
    ensures
        r == le32(b@, i as int),
{
    b[i] as u32 + b[i + 1] as u32 * 0x100 + b[i + 2] as u32 * 0x10000 + b[i + 3] as u32 * 0x1000000
}

/// Reads the little-endian `u64` at `b[i..i + 8]`.
pub fn read_le_u64(b: &[u8], i: usize) -> (r: u64)
    requires
        i + 8 <= b@.len(),
    ensures
        r == le64(b@, i as int),
{
    let n: usize = b.len();
    let lo = read_le_u32(b, i);
    let hi = read_le_u32(b, i + 4);
    lo as u64 + hi as u64 * 0x100000000
}

/// Kernel receive counters; the kernel resets them on every read, so each
/// read is a delta since the previous one.
#[derive(Clone, Copy, Debug, PartialEq, Eq, Structural)]
pub struct TpacketStatsV3 {
    pub tp_packets: u32,
    pub tp_drops: u32,
    pub tp_freeze_q_cnt: u32,
}

/// Ring geometry request: block and frame sizing, the kernel retire
/// timeout, private-area size and feature flags.  A consistent geometry
/// has `tp_frame_size * tp_frame_nr == tp_block_size * tp_block_nr`.
#[derive(Clone, Copy, Debug, PartialEq, Eq, Structural)]
pub struct TpacketReq3 {
    /// Block size of the ring in bytes.
    pub tp_block_size: u32,
    /// Number of blocks allocated for the ring.
    pub tp_block_nr: u32,
    /// Frame size of the ring in bytes.
    pub tp_frame_size: u32,
    /// Number of frames in the ring.
    pub tp_frame_nr: u32,
    /// Block retire timeout in milliseconds.
    pub tp_retire_blk_tov: u32,
    /// Size of the per-block private area.
    pub tp_sizeof_priv: u32,
    /// Feature request word; bit `TP_FT_REQ_FILL_RXHASH` asks the kernel
    /// to fill the flow hash of each packet.
    pub tp_feature_req_word: u32,
}

impl TpacketReq3 {
    /// The block/frame accounting invariant every ring geometry must meet.
    pub open spec fn geometry_consistent(self) -> bool {
        self.tp_frame_size * self.tp_frame_nr == self.tp_block_size * self.tp_block_nr
    }

    /// Checks the sizing invariant, rejecting an inconsistent geometry.
    pub fn check_geometry(&self) -> (r: Result<(), crate::RingError>)
        ensures
            r is Ok <==> self.geometry_consistent(),
            r is Err ==> r->Err_0 == crate::RingError::ConfigError,
    {
        proof {
            vstd::arithmetic::mul::lemma_mul_upper_bound(
                self.tp_frame_size as int,
                u32::MAX as int,
                self.tp_frame_nr as int,
                u32::MAX as int,
            );
            vstd::arithmetic::mul::lemma_mul_upper_bound(
                self.tp_block_size as int,
                u32::MAX as int,
                self.tp_block_nr as int,
                u32::MAX as int,
            );
        }
        let frames = self.tp_frame_size as u64 * self.tp_frame_nr as u64;
        let blocks = self.tp_block_size as u64 * self.tp_block_nr as u64;
        if frames == blocks {
            Ok(())
        } else {
            Err(crate::RingError::ConfigError)
        }
    }

    /// The total length in bytes of the mapped region this geometry asks
    /// for: all its blocks laid out back to back.
    pub fn region_len(&self) -> (r: u64)
        ensures
            r == self.tp_block_size * self.tp_block_nr,
    {
        proof {
            vstd::arithmetic::mul::lemma_mul_upper_bound(
                self.tp_block_size as int,
                u32::MAX as int,
                self.tp_block_nr as int,
                u32::MAX as int,
            );
        }
        self.tp_block_size as u64 * self.tp_block_nr as u64
    }
}

/// The default ring geometry: 10000 blocks of 32768 bytes carved into
/// 160000 frames of 2048 bytes, a 100 ms retire timeout, and the
/// flow-hash fill feature enabled.
pub open spec fn default_geometry() -> TpacketReq3 {
    TpacketReq3 {
        tp_block_size: 32768,
        tp_block_nr: 10000,
        tp_frame_size: 2048,
        tp_frame_nr: 160000,
        tp_retire_blk_tov: 100,
        tp_sizeof_priv: 0,
        tp_feature_req_word: TP_FT_REQ_FILL_RXHASH,
    }
}

impl Default for TpacketReq3 {
    /// The default geometry, which is consistent.
    fn default() -> (r: TpacketReq3)
        ensures
            r == default_geometry(),
            r.geometry_consistent(),
    {
        TpacketReq3 {
            tp_block_size: 32768,
            tp_block_nr: 10000,
            tp_frame_size: 2048,
            tp_frame_nr: 160000,
            tp_retire_blk_tov: 100,
            tp_sizeof_priv: 0,
            tp_feature_req_word: TP_FT_REQ_FILL_RXHASH,
        }
    }
}

/// One capture timestamp of a block descriptor: seconds and nanoseconds.
#[derive(Clone, Copy, Debug, PartialEq, Eq, Structural)]
pub struct TpacketBDTS {
    pub ts_sec: u32,
    pub ts_nsec: u32,
}

/// The sub-header of a block descriptor: ownership status, packet count,
/// offsets, used length, sequence number and first/last timestamps.
#[derive(Clone, Copy, Debug, PartialEq, Eq, Structural)]
pub struct TpacketBDHeader {
    pub block_status: u32,
    pub num_pkts: u32,
    pub offset_to_first_pkt: u32,
    pub blk_len: u32,
    pub seq_num: u64,
    pub ts_first_pkt: TpacketBDTS,
    pub ts_last_pkt: TpacketBDTS,
}

/// The decoded fixed header at the start of a block.
#[derive(Clone, Copy, Debug, PartialEq, Eq, Structural)]
pub struct TpacketBlockDesc {
    pub version: u32,
    pub offset_to_priv: u32,
    pub hdr: TpacketBDHeader,
}

/// The optional sub-record of a packet header carrying the hardware flow
/// hash and VLAN fields.
#[derive(Clone, Copy, Debug, PartialEq, Eq, Structural)]
pub struct TpacketHdrVariant1 {
    pub tp_rxhash: u32,
    pub tp_vlan_tci: u32,
    pub tp_vlan_tpid: u16,
    pub tp_padding: u16,
}

/// Per-packet metadata: offset to the next record, capture timestamp,
/// captured/original lengths, status, layer offsets and the variant
/// sub-record.
#[derive(Clone, Copy, Debug, PartialEq, Eq, Structural)]
pub struct Tpacket3Hdr {
    pub tp_next_offset: u32,
    pub tp_sec: u32,
    pub tp_nsec: u32,
    pub tp_snaplen: u32,
    pub tp_len: u32,
    pub tp_status: u32,
    pub tp_mac: u16,
    pub tp_net: u16,
    pub hv1: TpacketHdrVariant1,
}

/// The timestamp encoded at bytes `i..i + 8` of `s`.
pub open spec fn bdts_of(s: Seq<u8>, i: int) -> TpacketBDTS {
    TpacketBDTS { ts_sec: le32(s, i) as u32, ts_nsec: le32(s, i + 4) as u32 }
}

/// The block-descriptor sub-header encoded at bytes `8..48` of `s`.
pub open spec fn bd_header_of(s: Seq<u8>) -> TpacketBDHeader {
    TpacketBDHeader {
        block_status: le32(s, 8) as u32,
        num_pkts: le32(s, 12) as u32,
        offset_to_first_pkt: le32(s, 16) as u32,
        blk_len: le32(s, 20) as u32,
        seq_num: le64(s, 24) as u64,
        ts_first_pkt: bdts_of(s, 32),
        ts_last_pkt: bdts_of(s, 40),
    }
}

/// The block descriptor encoded at bytes `0..48` of `s`.
pub open spec fn block_desc_of(s: Seq<u8>) -> TpacketBlockDesc {
    TpacketBlockDesc {
        version: le32(s, 0) as u32,
        offset_to_priv: le32(s, 4) as u32,
        hdr: bd_header_of(s),
    }
}

/// The packet header encoded at bytes `i..i + 40` of `s`.
pub open spec fn pkt_hdr_of(s: Seq<u8>, i: int) -> Tpacket3Hdr {
    Tpacket3Hdr {
        tp_next_offset: le32(s, i) as u32,
        tp_sec: le32(s, i + 4) as u32,
        tp_nsec: le32(s, i + 8) as u32,
        tp_snaplen: le32(s, i + 12) as u32,
        tp_len: le32(s, i + 16) as u32,
        tp_status: le32(s, i + 20) as u32,
        tp_mac: le16(s, i + 24) as u16,
        tp_net: le16(s, i + 26) as u16,
        hv1: TpacketHdrVariant1 {
            tp_rxhash: le32(s, i + 28) as u32,
            tp_vlan_tci: le32(s, i + 32) as u32,
            tp_vlan_tpid: le16(s, i + 36) as u16,
            tp_padding: le16(s, i + 38) as u16,
        },
    }
}

/// Decodes the fixed 48-byte descriptor at the start of a block.  Fails
/// with `MalformedHeader` if and only if the input is shorter than the
/// fixed header size.
pub fn get_tpacket_block_desc(bytes: &[u8]) -> (r: Result<TpacketBlockDesc, crate::RingError>)
    ensures
        r is Ok <==> bytes@.len() >= TP_BLOCK_HDR_LEN,
        r is Ok ==> r->Ok_0 == block_desc_of(bytes@),
        r is Err ==> r->Err_0 == crate::RingError::MalformedHeader,
{
    if bytes.len() < TP_BLOCK_HDR_LEN {
        return Err(crate::RingError::MalformedHeader);
    }
    Ok(TpacketBlockDesc {
        version: read_le_u32(bytes, 0),
        offset_to_priv: read_le_u32(bytes, 4),
        hdr: TpacketBDHeader {
            block_status: read_le_u32(bytes, 8),
            num_pkts: read_le_u32(bytes, 12),
            offset_to_first_pkt: read_le_u32(bytes, 16),
            blk_len: read_le_u32(bytes, 20),
            seq_num: read_le_u64(bytes, 24),
            ts_first_pkt: TpacketBDTS {
                ts_sec: read_le_u32(bytes, 32),
                ts_nsec: read_le_u32(bytes, 36),
            },
            ts_last_pkt: TpacketBDTS {
                ts_sec: read_le_u32(bytes, 40),
                ts_nsec: read_le_u32(bytes, 44),
            },
        },
    })
}

/// Decodes the fixed 40-byte packet header at byte offset `offset` of a
/// block.  Fails with `MalformedHeader` if and only if fewer than 40
/// bytes lie between the offset and the end of the input.
pub fn get_tpacket3_hdr(bytes: &[u8], offset: usize) -> (r: Result<Tpacket3Hdr, crate::RingError>)
    ensures
        r is Ok <==> offset + TP_PACKET_HDR_LEN <= bytes@.len(),
        r is Ok ==> r->Ok_0 == pkt_hdr_of(bytes@, offset as int),
        r is Err ==> r->Err_0 == crate::RingError::MalformedHeader,
{
    let n: usize = bytes.len();
    if n < TP_PACKET_HDR_LEN || offset > n - TP_PACKET_HDR_LEN {
        return Err(crate::RingError::MalformedHeader);
    }
    Ok(Tpacket3Hdr {
        tp_next_offset: read_le_u32(bytes, offset),
        tp_sec: read_le_u32(bytes, offset + 4),
        tp_nsec: read_le_u32(bytes, offset + 8),
        tp_snaplen: read_le_u32(bytes, offset + 12),
        tp_len: read_le_u32(bytes, offset + 16),
        tp_status: read_le_u32(bytes, offset + 20),
        tp_mac: read_le_u16(bytes, offset + 24),
        tp_net: read_le_u16(bytes, offset + 26),
        hv1: TpacketHdrVariant1 {
            tp_rxhash: read_le_u32(bytes, offset + 28),
            tp_vlan_tci: read_le_u32(bytes, offset + 32),
            tp_vlan_tpid: read_le_u16(bytes, offset + 36),
            tp_padding: read_le_u16(bytes, offset + 38),
        },
    })
}

} // verus!
