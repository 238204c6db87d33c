//! Pure computations behind the interface-socket plumbing: packing the
//! interface name for an interface request block and combining the
//! 16-bit interface flags word that enabling promiscuous mode rewrites.
use vstd::prelude::*;

use crate::RingError;

verus! {

/// Size of the fixed interface-name field in an interface request block.
pub const IF_NAMESIZE: usize = 16;

/// Packs an interface name into the fixed-size, zero-padded name field
/// of an interface request block.  A name is rejected unless it leaves
/// room for a terminating zero byte.
pub fn encode_if_name(name: &Vec<u8>) -> (r: Result<Vec<u8>, RingError>)
    ensures
        r is Ok <==> name@.len() < IF_NAMESIZE,
        r is Ok ==> r->Ok_0@.len() == IF_NAMESIZE && r->Ok_0@.subrange(0, name@.len() as int)
            == name@ && forall|i: int| name@.len() <= i < IF_NAMESIZE ==> r->Ok_0@[i] == 0u8,
        r is Err ==> r->Err_0 == RingError::ConfigError,
{
    let n = name.len();
    if n >= IF_NAMESIZE {
        return Err(RingError::ConfigError);
    }
    let mut out: Vec<u8> = Vec::new();
    let mut i: usize = 0;
    while i < n
        invariant
            i <= n,
            n == name@.len(),
            out@ == name@.subrange(0, i as int),
        decreases n - i,
    {
        out.push(name[i]);
        i = i + 1;
        proof {
            assert(out@ =~= name@.subrange(0, i as int));
        }
    }
    while out.len() < IF_NAMESIZE
        invariant
            n == name@.len(),
            n <= out@.len() <= IF_NAMESIZE,
            out@.subrange(0, n as int) == name@,
            forall|k: int| n <= k < out@.len() ==> out@[k] == 0u8,
        decreases IF_NAMESIZE - out.len(),
    {
        out.push(0u8);
        proof {
            assert(out@.subrange(0, n as int) =~= name@);
        }
    }
    Ok(out)
}

/// The 16-bit flags word stored low byte first in the data area of an
/// interface request block.
pub open spec fn flags_word(lo: u8, hi: u8) -> int {
    lo + hi * 0x100
}

/// Reassembles the interface flags word from its two stored bytes.
pub fn flags_word_from_bytes(lo: u8, hi: u8) -> (r: u16)
    ensures
        r == flags_word(lo, hi),
{
    lo as u16 + hi as u16 * 0x100
}

/// Splits an interface flags word into the two bytes it is stored as.
pub fn flags_word_to_bytes(w: u16) -> (r: (u8, u8))
    ensures
        flags_word(r.0, r.1) == w,
        r.0 == w as int % 0x100,
        r.1 == w as int / 0x100,
{
    proof {
        vstd::arithmetic::div_mod::lemma_fundamental_div_mod(w as int, 0x100);
    }
    ((w % 0x100) as u8, (w / 0x100) as u8)
}

/// Splitting a flags word into its stored bytes and reassembling them
/// returns the same word.
pub proof fn lemma_flags_word_round_trip(w: u16)
    ensures
        flags_word((w as int % 0x100) as u8, (w as int / 0x100) as u8) == w,
{
    vstd::arithmetic::div_mod::lemma_fundamental_div_mod(w as int, 0x100);
}

/// Raises `flag`'s bits in an interface flags word, leaving every other
/// bit as it was, as enabling promiscuous mode rewrites the word.
pub fn with_flag_set(flags: u16, flag: u16) -> (r: u16)
    ensures
        r == (flags | flag),
        (r & flag) == flag,
        (r & flags) == flags,
        (r & !(flags | flag)) == 0,
{
    proof {
        assert(((flags | flag) & flag == flag) && ((flags | flag) & flags == flags) && ((flags
            | flag) & !(flags | flag) == 0)) by (bit_vector);
    }
    flags | flag
}

} // verus!
