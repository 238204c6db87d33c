//! The receive side of the ring: blocks, the kernel/user ownership
//! handoff, the walk over a block's packet records, and the scan that
//! finds a ready block.
use vstd::prelude::*;

use crate::tpacket3::{
    bd_header_of, block_desc_of, default_geometry, get_tpacket3_hdr, get_tpacket_block_desc, le32,
    pkt_hdr_of, Tpacket3Hdr, TpacketBlockDesc, TpacketReq3, TP_BLK_STATUS_OFFSET,
    TP_BLOCK_HDR_LEN, TP_PACKET_HDR_LEN, TP_STATUS_KERNEL, TP_STATUS_USER,
};
use crate::RingError;
use vstd::string::StringExecFns;

verus! {

/// Fanout method that pins each flow to one consumer thread.
pub const PACKET_FANOUT_HASH: i32 = 0;

/// Fanout method that spreads load round-robin with no flow affinity.
pub const PACKET_FANOUT_LB: i32 = 1;

/// True when the bytes of a block mark it consumer-owned: the block is
/// large enough to carry its descriptor and the low bit of the status
/// word is set.
pub open spec fn block_ready(s: Seq<u8>) -> bool {
    &&& s.len() >= TP_BLOCK_HDR_LEN
    &&& s[TP_BLK_STATUS_OFFSET as int] & TP_STATUS_USER != 0
}

/// The byte offset where the payload of a block's records ends: the used
/// length the descriptor declares, held inside the block's bounds.
pub open spec fn used_len(blk_len: u32, total: int) -> int {
    if blk_len <= total {
        blk_len as int
    } else {
        total
    }
}

/// One step of the record walk, in ghost form: the decoded header of a
/// record together with the byte range of its payload.
pub struct PacketRec {
    pub hdr: Tpacket3Hdr,
    pub start: int,
    pub end: int,
}

/// The records that walking bytes `s` yields from loop index `x` on, at
/// byte offset `next`, out of `count` records in all, with the payload of
/// the last record ending at `used`.  A record whose header cannot be
/// decoded, whose successor would start past the end of the block, or
/// (for the last record) whose header lies past the used region, is
/// skipped and the walk goes on at the next index.
pub open spec fn walk_from(s: Seq<u8>, count: nat, used: int, x: nat, next: int) -> Seq<PacketRec>
    decreases count - x,
{
    if x >= count {
        Seq::empty()
    } else if next + TP_PACKET_HDR_LEN > s.len() {
        walk_from(s, count, used, (x + 1) as nat, next)
    } else {
        let hdr = pkt_hdr_of(s, next);
        if x + 1 < count {
            let end = next + hdr.tp_next_offset;
            if end > s.len() {
                walk_from(s, count, used, (x + 1) as nat, next)
            } else {
                seq![PacketRec { hdr, start: next, end }] + walk_from(
                    s,
                    count,
                    used,
                    (x + 1) as nat,
                    end,
                )
            }
        } else {
            if next + TP_PACKET_HDR_LEN <= used {
                seq![
                    PacketRec {
                        hdr: Tpacket3Hdr { tp_next_offset: 0, ..hdr },
                        start: next,
                        end: used,
                    },
                ]
            } else {
                Seq::empty()
            }
        }
    }
}

/// The records that walking a whole block yields: `count` records chained
/// from the first byte after the block descriptor.
pub open spec fn walk_packets(s: Seq<u8>, count: nat, used: int) -> Seq<PacketRec> {
    walk_from(s, count, used, 0, TP_BLOCK_HDR_LEN as int)
}

/// Details of and the data of one captured frame, copied out of a block.
#[derive(Debug)]
pub struct RawPacket {
    /// The decoded per-packet header.
    pub tpacket3_hdr: Tpacket3Hdr,
    /// The raw frame record, including any encapsulations.
    pub data: Vec<u8>,
}

/// One block of the ring: its decoded descriptor and its raw bytes.
#[derive(Debug)]
pub struct Block {
    /// The descriptor decoded from the start of `raw_data`.
    pub block_desc: TpacketBlockDesc,
    /// The block's bytes, `block_size` of them, descriptor included.
    pub raw_data: Vec<u8>,
}

impl Block {
    /// A block always carries at least its fixed descriptor.
    pub open spec fn wf(self) -> bool {
        self.raw_data@.len() >= TP_BLOCK_HDR_LEN
    }

    /// Decodes the descriptor at the start of `raw_data` and wraps the
    /// bytes as a block.  Fails with `MalformedHeader` if and only if the
    /// input is shorter than the descriptor.
    pub fn from_bytes(raw_data: Vec<u8>) -> (r: Result<Block, RingError>)
        ensures
            r is Ok <==> raw_data@.len() >= TP_BLOCK_HDR_LEN,
            r is Ok ==> r->Ok_0.wf() && r->Ok_0.raw_data@ == raw_data@ && r->Ok_0.block_desc
                == block_desc_of(raw_data@),
            r is Err ==> r->Err_0 == RingError::MalformedHeader,
    {
        match get_tpacket_block_desc(raw_data.as_slice()) {
            Ok(block_desc) => Ok(Block { block_desc, raw_data }),
            Err(e) => Err(e),
        }
    }

    /// True when the block's ownership flag hands it to the consumer.
    pub fn is_ready(&self) -> (r: bool)
        requires
            self.wf(),
        ensures
            r == block_ready(self.raw_data@),
    {
        self.raw_data[TP_BLK_STATUS_OFFSET] & TP_STATUS_USER != 0
    }

    /// Marks the block as free to be reused by the kernel by zeroing all
    /// four bytes of the ownership word.  No other byte changes, and the
    /// flag reads as kernel-owned at once.
    pub fn mark_as_consumed(&mut self)
        requires
            old(self).wf(),
        ensures
            final(self).wf(),
            final(self).block_desc == old(self).block_desc,
            final(self).raw_data@ == old(self).raw_data@.update(
                TP_BLK_STATUS_OFFSET as int,
                TP_STATUS_KERNEL,
            ).update(TP_BLK_STATUS_OFFSET as int + 1, TP_STATUS_KERNEL).update(
                TP_BLK_STATUS_OFFSET as int + 2,
                TP_STATUS_KERNEL,
            ).update(TP_BLK_STATUS_OFFSET as int + 3, TP_STATUS_KERNEL),
            le32(final(self).raw_data@, TP_BLK_STATUS_OFFSET as int) == 0,
            bd_header_of(final(self).raw_data@).block_status == 0,
            !block_ready(final(self).raw_data@),
    {
        self.raw_data.set(TP_BLK_STATUS_OFFSET, TP_STATUS_KERNEL);
        self.raw_data.set(TP_BLK_STATUS_OFFSET + 1, TP_STATUS_KERNEL);
        self.raw_data.set(TP_BLK_STATUS_OFFSET + 2, TP_STATUS_KERNEL);
        self.raw_data.set(TP_BLK_STATUS_OFFSET + 3, TP_STATUS_KERNEL);
        proof {
            let b = self.raw_data@[TP_BLK_STATUS_OFFSET as int];
            assert(b & 1u8 == 0u8) by (bit_vector)
                requires
                    b == 0u8,
            ;
        }
    }

    /// Walks the `num_pkts` packet records of the block and returns one
    /// view per record that decodes cleanly, in record order.  The views
    /// are exactly those of the record walk over the block's bytes, and
    /// each one's payload lies inside the block.
    pub fn get_raw_packets(&self) -> (r: Vec<RawPacket>)
        requires
            self.wf(),
        ensures
            ({
                let s = self.raw_data@;
                let w = walk_packets(
                    s,
                    self.block_desc.hdr.num_pkts as nat,
                    used_len(self.block_desc.hdr.blk_len, s.len() as int),
                );
                &&& r@.len() == w.len()
                &&& forall|i: int|
                    0 <= i < w.len() ==> (#[trigger] r@[i]).tpacket3_hdr == w[i].hdr
                &&& forall|i: int|
                    0 <= i < w.len() ==> 0 <= (#[trigger] w[i]).start <= w[i].end <= s.len()
                &&& forall|i: int|
                    0 <= i < w.len() ==> (#[trigger] r@[i]).data@ == s.subrange(
                        w[i].start,
                        w[i].end,
                    )
            }),
    {
        let ghost s = self.raw_data@;
        let count: u32 = self.block_desc.hdr.num_pkts;
        let len: usize = self.raw_data.len();
        let blk_len = self.block_desc.hdr.blk_len;
        let used: usize = if blk_len as usize <= len {
            blk_len as usize
        } else {
            len
        };
        let ghost cnt = count as nat;
        let ghost u = used as int;
        let mut packets: Vec<RawPacket> = Vec::new();
        let ghost mut done: Seq<PacketRec> = Seq::empty();
        let mut next_offset: usize = TP_BLOCK_HDR_LEN;
        let mut x: u32 = 0;
        proof {
            assert(walk_packets(s, cnt, u) =~= done + walk_from(
                s,
                cnt,
                u,
                0,
                TP_BLOCK_HDR_LEN as int,
            ));
        }
        while x < count
            invariant
                self.wf(),
                s == self.raw_data@,
                len == s.len(),
                u == used as int,
                cnt == count as nat,
                x <= count,
                next_offset <= len,
                used <= len,
                walk_packets(s, cnt, u) == done + walk_from(
                    s,
                    cnt,
                    u,
                    x as nat,
                    next_offset as int,
                ),
                packets@.len() == done.len(),
                forall|i: int|
                    0 <= i < done.len() ==> (#[trigger] packets@[i]).tpacket3_hdr == done[i].hdr,
                forall|i: int|
                    0 <= i < done.len() ==> 0 <= (#[trigger] done[i]).start <= done[i].end
                        <= s.len(),
                forall|i: int|
                    0 <= i < done.len() ==> (#[trigger] packets@[i]).data@ == s.subrange(
                        done[i].start,
                        done[i].end,
                    ),
            decreases count - x,
        {
            let this = next_offset;
            match get_tpacket3_hdr(self.raw_data.as_slice(), this) {
                Err(_) => {
                    // this record's header runs past the block: skip it
                    proof {
                        assert(walk_from(s, cnt, u, x as nat, this as int) == walk_from(
                            s,
                            cnt,
                            u,
                            (x + 1) as nat,
                            this as int,
                        ));
                    }
                },
                Ok(hdr) => {
                    if x + 1 < count {
                        let off = hdr.tp_next_offset as usize;
                        if off <= len - this {
                            let end = this + off;
                            let data = vstd::slice::slice_to_vec(
                                &self.raw_data.as_slice()[this..end],
                            );
                            let ghost rec = PacketRec {
                                hdr: pkt_hdr_of(s, this as int),
                                start: this as int,
                                end: end as int,
                            };
                            packets.push(RawPacket { tpacket3_hdr: hdr, data });
                            proof {
                                assert(walk_from(s, cnt, u, x as nat, this as int) == seq![rec]
                                    + walk_from(s, cnt, u, (x + 1) as nat, end as int));
                                assert(done + (seq![rec] + walk_from(
                                    s,
                                    cnt,
                                    u,
                                    (x + 1) as nat,
                                    end as int,
                                )) =~= (done + seq![rec]) + walk_from(
                                    s,
                                    cnt,
                                    u,
                                    (x + 1) as nat,
                                    end as int,
                                ));
                                done = done + seq![rec];
                            }
                            next_offset = end;
                        } else {
                            // the chain would leave the block: skip this record
                            proof {
                                assert(walk_from(s, cnt, u, x as nat, this as int) == walk_from(
                                    s,
                                    cnt,
                                    u,
                                    (x + 1) as nat,
                                    this as int,
                                ));
                            }
                        }
                    } else {
                        // the last record's payload runs to the used region's end
                        if TP_PACKET_HDR_LEN <= used && this <= used - TP_PACKET_HDR_LEN {
                            let mut last_hdr = hdr;
                            last_hdr.tp_next_offset = 0;
                            let data = vstd::slice::slice_to_vec(
                                &self.raw_data.as_slice()[this..used],
                            );
                            let ghost rec = PacketRec {
                                hdr: Tpacket3Hdr { tp_next_offset: 0, ..pkt_hdr_of(s, this as int) },
                                start: this as int,
                                end: u,
                            };
                            packets.push(RawPacket { tpacket3_hdr: last_hdr, data });
                            proof {
                                assert(walk_from(s, cnt, u, x as nat, this as int) == seq![rec]
                                    + walk_from(s, cnt, u, (x + 1) as nat, this as int));
                                assert(done + (seq![rec] + walk_from(
                                    s,
                                    cnt,
                                    u,
                                    (x + 1) as nat,
                                    this as int,
                                )) =~= (done + seq![rec]) + walk_from(
                                    s,
                                    cnt,
                                    u,
                                    (x + 1) as nat,
                                    this as int,
                                ));
                                done = done + seq![rec];
                            }
                        } else {
                            // the used region cannot hold the record: skip it
                            proof {
                                assert(walk_from(s, cnt, u, x as nat, this as int) == walk_from(
                                    s,
                                    cnt,
                                    u,
                                    (x + 1) as nat,
                                    this as int,
                                ));
                            }
                        }
                    }
                },
            }
            x = x + 1;
        }
        proof {
            assert(walk_from(s, cnt, u, x as nat, next_offset as int) =~= Seq::<
                PacketRec,
            >::empty());
            assert(walk_packets(s, cnt, u) =~= done);
        }
        packets
    }
}

/// Readiness is a function of the status byte alone: any write that
/// leaves the status byte in place — the kernel appending records, a
/// consumer re-reading — leaves a consumer-owned block consumer-owned.
pub proof fn lemma_ready_depends_only_on_status(a: Seq<u8>, b: Seq<u8>)
    requires
        a.len() >= TP_BLOCK_HDR_LEN,
        b.len() >= TP_BLOCK_HDR_LEN,
        a[TP_BLK_STATUS_OFFSET as int] == b[TP_BLK_STATUS_OFFSET as int],
    ensures
        block_ready(a) == block_ready(b),
{
}

/// A walk over a block that declares no packets yields no records, and
/// never an error.
pub proof fn lemma_walk_no_packets(s: Seq<u8>, used: int)
    ensures
        walk_packets(s, 0, used) =~= Seq::<PacketRec>::empty(),
{
}

proof fn lemma_walk_from_len(s: Seq<u8>, count: nat, used: int, x: nat, next: int)
    requires
        x <= count,
    ensures
        walk_from(s, count, used, x, next).len() <= count - x,
    decreases count - x,
{
    if x < count {
        if next + TP_PACKET_HDR_LEN > s.len() {
            lemma_walk_from_len(s, count, used, (x + 1) as nat, next);
        } else {
            let hdr = pkt_hdr_of(s, next);
            if x + 1 < count {
                let end = next + hdr.tp_next_offset;
                if end > s.len() {
                    lemma_walk_from_len(s, count, used, (x + 1) as nat, next);
                } else {
                    lemma_walk_from_len(s, count, used, (x + 1) as nat, end);
                }
            }
        }
    }
}

/// A walk over a block that declares `count` packets yields at most
/// `count` records, whatever the bytes hold.
pub proof fn lemma_walk_at_most_count(s: Seq<u8>, count: nat, used: int)
    ensures
        walk_packets(s, count, used).len() <= count,
{
    lemma_walk_from_len(s, count, used, 0, TP_BLOCK_HDR_LEN as int);
}

/// True when every record of `w` carries a payload range that lies
/// inside a block of `total` bytes.
pub open spec fn recs_in_bounds(w: Seq<PacketRec>, total: int) -> bool {
    forall|i: int| 0 <= i < w.len() ==> 0 <= (#[trigger] w[i]).start <= w[i].end <= total
}

proof fn lemma_walk_from_bounds(s: Seq<u8>, count: nat, used: int, x: nat, next: int)
    requires
        0 <= next,
        used <= s.len(),
    ensures
        recs_in_bounds(walk_from(s, count, used, x, next), s.len() as int),
    decreases count - x,
{
    let w = walk_from(s, count, used, x, next);
    if x < count {
        if next + TP_PACKET_HDR_LEN > s.len() {
            lemma_walk_from_bounds(s, count, used, (x + 1) as nat, next);
        } else {
            let hdr = pkt_hdr_of(s, next);
            if x + 1 < count {
                let end = next + hdr.tp_next_offset;
                if end > s.len() {
                    lemma_walk_from_bounds(s, count, used, (x + 1) as nat, next);
                } else {
                    lemma_walk_from_bounds(s, count, used, (x + 1) as nat, end);
                    let tail = walk_from(s, count, used, (x + 1) as nat, end);
                    assert forall|i: int| 0 <= i < w.len() implies 0 <= (#[trigger] w[i]).start
                        <= w[i].end <= s.len() by {
                        if i > 0 {
                            assert(w[i] == tail[i - 1]);
                        }
                    }
                }
            }
        }
    }
}

/// Every record a walk yields lies inside the block: payload ranges
/// never reach past the block's bytes.
pub proof fn lemma_walk_in_bounds(s: Seq<u8>, count: nat, used: int)
    requires
        used <= s.len(),
    ensures
        recs_in_bounds(walk_packets(s, count, used), s.len() as int),
{
    lemma_walk_from_bounds(s, count, used, 0, TP_BLOCK_HDR_LEN as int);
}

/// True when all `count` packet records chained through bytes `s` from
/// loop index `x` at byte offset `next` decode cleanly: each header fits
/// in the block, each link stays inside the block, and the last record's
/// header lies inside the used region ending at `used`.
pub open spec fn chain_wf_from(s: Seq<u8>, count: nat, used: int, x: nat, next: int) -> bool
    decreases count - x,
{
    x >= count || {
        &&& next + TP_PACKET_HDR_LEN <= s.len()
        &&& if x + 1 < count {
            let end = next + pkt_hdr_of(s, next).tp_next_offset;
            end <= s.len() && chain_wf_from(s, count, used, (x + 1) as nat, end)
        } else {
            next + TP_PACKET_HDR_LEN <= used
        }
    }
}

/// True when the whole record chain of a block of bytes `s` declaring
/// `count` packets decodes cleanly.
pub open spec fn chain_wf(s: Seq<u8>, count: nat, used: int) -> bool {
    chain_wf_from(s, count, used, 0, TP_BLOCK_HDR_LEN as int)
}

proof fn lemma_walk_from_complete(s: Seq<u8>, count: nat, used: int, x: nat, next: int)
    requires
        x <= count,
        chain_wf_from(s, count, used, x, next),
    ensures
        walk_from(s, count, used, x, next).len() == count - x,
    decreases count - x,
{
    if x < count {
        let hdr = pkt_hdr_of(s, next);
        if x + 1 < count {
            let end = next + hdr.tp_next_offset;
            lemma_walk_from_complete(s, count, used, (x + 1) as nat, end);
        }
    }
}

/// On a cleanly decoding block the walk misses nothing: it yields
/// exactly the declared number of records.
pub proof fn lemma_walk_complete(s: Seq<u8>, count: nat, used: int)
    requires
        chain_wf(s, count, used),
    ensures
        walk_packets(s, count, used).len() == count,
{
    lemma_walk_from_complete(s, count, used, 0, TP_BLOCK_HDR_LEN as int);
}

proof fn lemma_walk_from_last(s: Seq<u8>, count: nat, used: int, x: nat, next: int)
    requires
        x < count,
        walk_from(s, count, used, x, next).len() == count - x,
    ensures
        walk_from(s, count, used, x, next).last().hdr.tp_next_offset == 0,
        walk_from(s, count, used, x, next).last().end == used,
    decreases count - x,
{
    let w = walk_from(s, count, used, x, next);
    if next + TP_PACKET_HDR_LEN > s.len() {
        lemma_walk_from_len(s, count, used, (x + 1) as nat, next);
    } else {
        let hdr = pkt_hdr_of(s, next);
        if x + 1 < count {
            let end = next + hdr.tp_next_offset;
            if end > s.len() {
                lemma_walk_from_len(s, count, used, (x + 1) as nat, next);
            } else {
                let tail = walk_from(s, count, used, (x + 1) as nat, end);
                lemma_walk_from_len(s, count, used, (x + 1) as nat, end);
                lemma_walk_from_last(s, count, used, (x + 1) as nat, end);
                assert(w.last() == tail.last());
            }
        }
    }
}

/// A full walk ends the way the protocol promises: the last record
/// reports no successor and its payload extends to the end of the
/// block's used region.
pub proof fn lemma_walk_last_record(s: Seq<u8>, count: nat, used: int)
    requires
        0 < count,
        walk_packets(s, count, used).len() == count,
    ensures
        walk_packets(s, count, used).last().hdr.tp_next_offset == 0,
        walk_packets(s, count, used).last().end == used,
{
    lemma_walk_from_last(s, count, used, 0, TP_BLOCK_HDR_LEN as int);
}

/// True when slot `i` of a region carved into blocks of `bs` bytes holds
/// a consumer-owned block.
pub open spec fn slot_ready(region: Seq<u8>, bs: int, i: int) -> bool {
    block_ready(region.subrange(i * bs, i * bs + bs))
}

/// One scan pass of the ready-block search: walks the block indices in
/// ascending order and returns the first whose ownership flag hands the
/// block to the consumer, or nothing when no block is ready.  Block `i`
/// starts at byte `i * block_size`; the scan never reads past the
/// region.
pub fn find_ready_block(region: &[u8], block_size: usize, block_count: usize) -> (r: Option<
    usize,
>)
    requires
        block_size * block_count <= region@.len(),
    ensures
        match r {
            Some(i) => {
                &&& i < block_count
                &&& slot_ready(region@, block_size as int, i as int)
                &&& forall|j: int|
                    0 <= j < i ==> !slot_ready(region@, block_size as int, j)
            },
            None => forall|j: int|
                0 <= j < block_count ==> !slot_ready(region@, block_size as int, j),
        },
{
    let n: usize = region.len();
    let ghost bs = block_size as int;
    if block_size < TP_BLOCK_HDR_LEN {
        proof {
            assert forall|j: int| 0 <= j < block_count implies !slot_ready(region@, bs, j) by {
                assert(region@.subrange(j * bs, j * bs + bs).len() < TP_BLOCK_HDR_LEN) by (nonlinear_arith)
                    requires
                        0 <= j,
                        j + 1 <= block_count as int,
                        0 <= bs < TP_BLOCK_HDR_LEN,
                        bs * (block_count as int) <= region@.len(),
                ;
            }
        }
        return None;
    }
    let mut i: usize = 0;
    while i < block_count
        invariant
            block_size * block_count <= region@.len(),
            bs == block_size as int,
            n == region@.len(),
            TP_BLOCK_HDR_LEN <= block_size,
            i <= block_count,
            forall|j: int| 0 <= j < i ==> !slot_ready(region@, bs, j),
        decreases block_count - i,
    {
        proof {
            assert(i as int * bs + bs <= region@.len() && 0 <= i as int * bs) by (nonlinear_arith)
                requires
                    0 <= i as int,
                    i as int + 1 <= block_count as int,
                    0 <= bs,
                    (block_size as int) * (block_count as int) <= region@.len(),
                    bs == block_size as int,
            ;
        }
        let base = i * block_size;
        let status = region[base + TP_BLK_STATUS_OFFSET];
        proof {
            assert(region@.subrange(i as int * bs, i as int * bs + bs)[TP_BLK_STATUS_OFFSET as int]
                == region@[i as int * bs + TP_BLK_STATUS_OFFSET as int]);
        }
        if status & TP_STATUS_USER != 0 {
            return Some(i);
        }
        i = i + 1;
    }
    None
}

/// The socket-option word that joins a fanout group: the 16-bit group id
/// in the low half, the distribution method in the high half.
pub open spec fn fanout_word(group_id: u16, method: i32) -> int {
    group_id + method * 0x10000
}

/// Combines a fanout group id and a distribution method into the value
/// the fanout socket option takes.  Group id and method can be read back
/// out of the low and high halves of the word.
pub fn fanout_option_value(group_id: u16, method: i32) -> (r: i32)
    requires
        0 <= method <= 0x7fff,
    ensures
        r == fanout_word(group_id, method),
        r as int % 0x10000 == group_id,
        r as int / 0x10000 == method,
{
    let r = group_id as i32 + method * 0x10000;
    proof {
        vstd::arithmetic::div_mod::lemma_fundamental_div_mod_converse(
            r as int,
            0x10000,
            method as int,
            group_id as int,
        );
    }
    r
}

/// Settings used to bring up one ring.
#[derive(Clone, Debug)]
pub struct RingSettings {
    /// Name of the interface to capture on.
    pub if_name: String,
    /// `PACKET_FANOUT_HASH` pins flows to individual threads;
    /// `PACKET_FANOUT_LB` spreads them across threads.
    pub fanout_method: i32,
    /// Ring geometry, including block sizing and the flow-hash feature.
    pub ring_settings: TpacketReq3,
}

impl Default for RingSettings {
    /// The default settings: capture on `eth0`, pin flows to threads,
    /// and use the default ring geometry.
    fn default() -> (r: RingSettings)
        ensures
            r.if_name@ == "eth0"@,
            r.fanout_method == PACKET_FANOUT_HASH,
            r.ring_settings == default_geometry(),
    {
        RingSettings {
            if_name: String::from_str("eth0"),
            fanout_method: PACKET_FANOUT_HASH,
            ring_settings: TpacketReq3::default(),
        }
    }
}

} // verus!
