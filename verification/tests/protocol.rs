use af_packet::rx::{
    fanout_option_value, find_ready_block, Block, PACKET_FANOUT_HASH, PACKET_FANOUT_LB,
};
use af_packet::socket::{
    encode_if_name, flags_word_from_bytes, flags_word_to_bytes, with_flag_set, IF_NAMESIZE,
};
use af_packet::tpacket3::{
    get_tpacket3_hdr, get_tpacket_block_desc, TpacketReq3, TP_BLK_STATUS_OFFSET,
};
use af_packet::RingError;

fn put_le16(v: &mut Vec<u8>, off: usize, x: u16) {
    let b = x.to_le_bytes();
    v[off] = b[0];
    v[off + 1] = b[1];
}

fn put_le32(v: &mut Vec<u8>, off: usize, x: u32) {
    let b = x.to_le_bytes();
    for k in 0..4 {
        v[off + k] = b[k];
    }
}

fn put_le64(v: &mut Vec<u8>, off: usize, x: u64) {
    let b = x.to_le_bytes();
    for k in 0..8 {
        v[off + k] = b[k];
    }
}

/// A block of `len` bytes whose descriptor declares `num_pkts` records,
/// a status word of `status` and a used length of `blk_len`.
fn block_bytes(len: usize, status: u32, num_pkts: u32, blk_len: u32) -> Vec<u8> {
    let mut v = vec![0u8; len];
    put_le32(&mut v, 0, 1); // version
    put_le32(&mut v, 8, status);
    put_le32(&mut v, 12, num_pkts);
    put_le32(&mut v, 16, 48); // offset to first packet
    put_le32(&mut v, 20, blk_len);
    put_le64(&mut v, 24, 7); // sequence number
    v
}

/// Writes a packet-record header at `off` with the given next-record
/// offset and snap length.
fn put_record_header(v: &mut Vec<u8>, off: usize, next_offset: u32, snaplen: u32) {
    put_le32(v, off, next_offset);
    put_le32(v, off + 4, 11); // seconds
    put_le32(v, off + 8, 12); // nanoseconds
    put_le32(v, off + 12, snaplen);
    put_le32(v, off + 16, snaplen);
    put_le32(v, off + 20, 1); // status
    put_le16(v, off + 24, 40); // mac offset
    put_le16(v, off + 26, 54); // net offset
    put_le32(v, off + 28, 0xfeed); // flow hash
}

#[test]
fn block_desc_parses_all_fields() {
    let mut v = vec![0u8; 48];
    put_le32(&mut v, 0, 3);
    put_le32(&mut v, 4, 0x30);
    put_le32(&mut v, 8, 0x0000_0001);
    put_le32(&mut v, 12, 9);
    put_le32(&mut v, 16, 48);
    put_le32(&mut v, 20, 4000);
    put_le64(&mut v, 24, 0x0102_0304_0506_0708);
    put_le32(&mut v, 32, 1111);
    put_le32(&mut v, 36, 2222);
    put_le32(&mut v, 40, 3333);
    put_le32(&mut v, 44, 4444);
    let d = get_tpacket_block_desc(&v).unwrap();
    assert_eq!(d.version, 3);
    assert_eq!(d.offset_to_priv, 0x30);
    assert_eq!(d.hdr.block_status, 1);
    assert_eq!(d.hdr.num_pkts, 9);
    assert_eq!(d.hdr.offset_to_first_pkt, 48);
    assert_eq!(d.hdr.blk_len, 4000);
    assert_eq!(d.hdr.seq_num, 0x0102_0304_0506_0708);
    assert_eq!(d.hdr.ts_first_pkt.ts_sec, 1111);
    assert_eq!(d.hdr.ts_first_pkt.ts_nsec, 2222);
    assert_eq!(d.hdr.ts_last_pkt.ts_sec, 3333);
    assert_eq!(d.hdr.ts_last_pkt.ts_nsec, 4444);
}

#[test]
fn block_desc_too_short_is_malformed() {
    let v = vec![0u8; 47];
    assert_eq!(get_tpacket_block_desc(&v).unwrap_err(), RingError::MalformedHeader);
    assert!(matches!(Block::from_bytes(v), Err(RingError::MalformedHeader)));
}

#[test]
fn zero_header_parses_as_kernel_owned() {
    let v = vec![0u8; 48];
    let d = get_tpacket_block_desc(&v).unwrap();
    assert_eq!(d.hdr.num_pkts, 0);
    assert_eq!(d.hdr.block_status, 0);
    let block = Block::from_bytes(v).unwrap();
    assert!(!block.is_ready());
}

#[test]
fn scan_never_returns_a_kernel_owned_block() {
    // all-zero region: every block reads kernel-owned
    let region = vec![0u8; 4 * 4096];
    assert_eq!(find_ready_block(&region, 4096, 4), None);
}

#[test]
fn scan_finds_first_ready_block_in_index_order() {
    let mut region = vec![0u8; 4 * 4096];
    region[2 * 4096 + TP_BLK_STATUS_OFFSET] = 1;
    region[3 * 4096 + TP_BLK_STATUS_OFFSET] = 1;
    assert_eq!(find_ready_block(&region, 4096, 4), Some(2));
    region[TP_BLK_STATUS_OFFSET] = 1;
    assert_eq!(find_ready_block(&region, 4096, 4), Some(0));
}

#[test]
fn scan_treats_undersized_blocks_as_not_ready() {
    // blocks too small to hold a descriptor can never be ready
    let region = vec![1u8; 64];
    assert_eq!(find_ready_block(&region, 8, 8), None);
}

#[test]
fn packet_header_parses_all_fields() {
    let mut v = vec![0u8; 100];
    put_le32(&mut v, 60, 0x60);
    put_le32(&mut v, 64, 5);
    put_le32(&mut v, 68, 6);
    put_le32(&mut v, 72, 100);
    put_le32(&mut v, 76, 1500);
    put_le32(&mut v, 80, 1);
    put_le16(&mut v, 84, 66);
    put_le16(&mut v, 86, 80);
    put_le32(&mut v, 88, 0xdead_beef);
    put_le32(&mut v, 92, 0x0123);
    put_le16(&mut v, 96, 0x8100);
    let h = get_tpacket3_hdr(&v, 60).unwrap();
    assert_eq!(h.tp_next_offset, 0x60);
    assert_eq!(h.tp_sec, 5);
    assert_eq!(h.tp_nsec, 6);
    assert_eq!(h.tp_snaplen, 100);
    assert_eq!(h.tp_len, 1500);
    assert_eq!(h.tp_status, 1);
    assert_eq!(h.tp_mac, 66);
    assert_eq!(h.tp_net, 80);
    assert_eq!(h.hv1.tp_rxhash, 0xdead_beef);
    assert_eq!(h.hv1.tp_vlan_tci, 0x0123);
    assert_eq!(h.hv1.tp_vlan_tpid, 0x8100);
}

#[test]
fn packet_header_needs_forty_bytes() {
    let v = vec![0u8; 100];
    assert_eq!(get_tpacket3_hdr(&v, 61).unwrap_err(), RingError::MalformedHeader);
    assert!(get_tpacket3_hdr(&v, 60).is_ok());
}

#[test]
fn walking_a_block_with_no_packets_yields_nothing() {
    let v = block_bytes(4096, 1, 0, 4096);
    let block = Block::from_bytes(v).unwrap();
    assert!(block.get_raw_packets().is_empty());
}

#[test]
fn walker_yields_every_record_with_payloads_inside_the_block() {
    let mut v = block_bytes(256, 1, 2, 160);
    put_record_header(&mut v, 48, 64, 20);
    for k in 88..112 {
        v[k] = 0xaa;
    }
    put_record_header(&mut v, 112, 999, 30); // next-offset of the last record is noise
    for k in 152..160 {
        v[k] = 0xbb;
    }
    let block = Block::from_bytes(v.clone()).unwrap();
    let packets = block.get_raw_packets();
    assert_eq!(packets.len(), 2);
    assert_eq!(packets[0].tpacket3_hdr.tp_next_offset, 64);
    assert_eq!(packets[0].tpacket3_hdr.tp_snaplen, 20);
    assert_eq!(packets[0].data, v[48..112].to_vec());
    // the last record reports no successor and runs to the used length
    assert_eq!(packets[1].tpacket3_hdr.tp_next_offset, 0);
    assert_eq!(packets[1].data, v[112..160].to_vec());
    assert_eq!(112 + packets[1].data.len(), 160);
}

#[test]
fn one_bad_record_does_not_cost_the_rest_of_the_block() {
    let mut v = block_bytes(256, 1, 3, 256);
    put_record_header(&mut v, 48, 64, 20);
    put_record_header(&mut v, 112, 0x7fff_ffff, 30); // chain leaves the block
    let block = Block::from_bytes(v).unwrap();
    let packets = block.get_raw_packets();
    // the corrupt middle record is skipped; the walk still ends cleanly
    assert_eq!(packets.len(), 2);
    assert_eq!(packets[0].tpacket3_hdr.tp_next_offset, 64);
    assert_eq!(packets[1].tpacket3_hdr.tp_next_offset, 0);
}

#[test]
fn ready_flag_is_stable_under_reads() {
    let v = block_bytes(4096, 1, 0, 4096);
    let block = Block::from_bytes(v).unwrap();
    assert!(block.is_ready());
    let _ = block.get_raw_packets();
    assert!(block.is_ready());
    assert!(block.is_ready());
}

#[test]
fn marking_consumed_reads_back_kernel_owned() {
    let mut v = block_bytes(4096, 0x0101_0101, 2, 200);
    v[100] = 0x55;
    let mut block = Block::from_bytes(v.clone()).unwrap();
    assert!(block.is_ready());
    block.mark_as_consumed();
    assert!(!block.is_ready());
    for k in 0..4 {
        assert_eq!(block.raw_data[TP_BLK_STATUS_OFFSET + k], 0);
    }
    // nothing but the four status bytes changed
    for k in 0..v.len() {
        if !(TP_BLK_STATUS_OFFSET..TP_BLK_STATUS_OFFSET + 4).contains(&k) {
            assert_eq!(block.raw_data[k], v[k]);
        }
    }
}

#[test]
fn consistent_geometry_is_accepted() {
    let req = TpacketReq3 {
        tp_block_size: 32768,
        tp_block_nr: 4,
        tp_frame_size: 2048,
        tp_frame_nr: 64,
        tp_retire_blk_tov: 100,
        tp_sizeof_priv: 0,
        tp_feature_req_word: 1,
    };
    assert!(req.check_geometry().is_ok());
}

#[test]
fn inconsistent_geometry_is_a_config_error() {
    let req = TpacketReq3 {
        tp_block_size: 32768,
        tp_block_nr: 4,
        tp_frame_size: 2048,
        tp_frame_nr: 63,
        tp_retire_blk_tov: 100,
        tp_sizeof_priv: 0,
        tp_feature_req_word: 1,
    };
    assert_eq!(req.check_geometry().unwrap_err(), RingError::ConfigError);
}

#[test]
fn default_geometry_matches_the_documented_values() {
    let req = TpacketReq3::default();
    assert_eq!(req.tp_block_size, 32768);
    assert_eq!(req.tp_block_nr, 10000);
    assert_eq!(req.tp_frame_size, 2048);
    assert_eq!(req.tp_frame_nr, 160000);
    assert_eq!(req.tp_retire_blk_tov, 100);
    assert_eq!(req.tp_sizeof_priv, 0);
    assert_eq!(req.tp_feature_req_word, 1);
    assert!(req.check_geometry().is_ok());
    assert_eq!(req.region_len(), 32768 * 10000);
}

#[test]
fn default_settings_capture_on_eth0_with_hash_fanout() {
    let settings = af_packet::rx::RingSettings::default();
    assert_eq!(settings.if_name.as_str(), "eth0");
    assert_eq!(settings.fanout_method, PACKET_FANOUT_HASH);
    assert_eq!(settings.ring_settings, TpacketReq3::default());
}

#[test]
fn fanout_word_packs_group_low_and_method_high() {
    assert_eq!(fanout_option_value(0x1234, PACKET_FANOUT_LB), 0x0001_1234);
    assert_eq!(fanout_option_value(7, PACKET_FANOUT_HASH), 7);
    assert_eq!(fanout_option_value(0xffff, PACKET_FANOUT_LB), 0x0001_ffff);
}

#[test]
fn interface_name_is_packed_and_zero_padded() {
    let packed = encode_if_name(&b"eth0".to_vec()).unwrap();
    assert_eq!(packed.len(), IF_NAMESIZE);
    assert_eq!(&packed[..4], b"eth0");
    assert!(packed[4..].iter().all(|&b| b == 0));
}

#[test]
fn interface_name_must_leave_room_for_a_terminator() {
    let long = b"0123456789abcdef".to_vec();
    assert_eq!(encode_if_name(&long).unwrap_err(), RingError::ConfigError);
    let just_fits = b"0123456789abcde".to_vec();
    assert!(encode_if_name(&just_fits).is_ok());
}

#[test]
fn flags_word_splits_and_reassembles() {
    let (lo, hi) = flags_word_to_bytes(0xabcd);
    assert_eq!((lo, hi), (0xcd, 0xab));
    assert_eq!(flags_word_from_bytes(lo, hi), 0xabcd);
}

#[test]
fn setting_a_flag_keeps_the_other_bits() {
    // raising the promiscuous bit in a typical flags word
    let updated = with_flag_set(0x1043, 0x100);
    assert_eq!(updated, 0x1143);
    let unchanged = with_flag_set(0x1143, 0x100);
    assert_eq!(unchanged, 0x1143);
}
