//! The randomization hasher: from a unit's identity and an experiment's salt
//! to a bucket of the spectrum.
//!
//! The hash is 64-bit FNV-1a over the UTF-8 bytes of the identity followed by
//! the salt. The salt is `BASE_HASHING_CONSTANT`, the experiment's hashing
//! constant and the four bytes of the experiment id, most significant first,
//! the id taken in offset binary. The bucket is the hash modulo
//! `SPECTRUM_WIDTH`. Catalogs and assignments that were made with this
//! function stay valid only as long as it is left as it is.

use vstd::prelude::*;
use vstd::utf8::encode_utf8;
use crate::ep_dto::{BASE_HASHING_CONSTANT, SPECTRUM_WIDTH};

verus! {

/// The hash of no byte at all.
pub const FNV_OFFSET_BASIS: u64 = 0xcbf2_9ce4_8422_2325;

/// The factor that every byte is mixed in with.
pub const FNV_PRIME: u64 = 0x0000_0100_0000_01b3;

/// The hash state after one more byte.
pub open spec fn absorb_byte(state: u64, byte: u8) -> u64 {
    (state ^ (byte as u64)).wrapping_mul(FNV_PRIME)
}

/// The hash state after `bytes`, taken in order.
pub open spec fn absorb(state: u64, bytes: Seq<u8>) -> u64
    decreases bytes.len(),
{
    if bytes.len() == 0 {
        state
    } else {
        absorb_byte(absorb(state, bytes.drop_last()), bytes.last())
    }
}

/// The four bytes that stand for an experiment id in a salt.
pub open spec fn id_bytes(experiment_id: i32) -> Seq<u8> {
    let biased = experiment_id + 0x8000_0000;
    seq![
        (biased / 0x100_0000) as u8,
        (biased / 0x1_0000 % 0x100) as u8,
        (biased / 0x100 % 0x100) as u8,
        (biased % 0x100) as u8,
    ]
}

/// The hash of a unit under an experiment's salt.
pub open spec fn unit_hash(
    identity: Seq<char>,
    hashing_constant: Seq<char>,
    experiment_id: i32,
) -> u64 {
    let unit = absorb(FNV_OFFSET_BASIS, encode_utf8(identity));
    let base = absorb(unit, encode_utf8(BASE_HASHING_CONSTANT@));
    let constant = absorb(base, encode_utf8(hashing_constant));
    absorb(constant, id_bytes(experiment_id))
}

/// The bucket that a unit falls into under an experiment's salt.
pub open spec fn bucket_of(
    identity: Seq<char>,
    hashing_constant: Seq<char>,
    experiment_id: i32,
) -> int {
    unit_hash(identity, hashing_constant, experiment_id) as int % SPECTRUM_WIDTH as int
}

fn absorb_bytes(state: u64, bytes: &[u8]) -> (r: u64)
    ensures
        r == absorb(state, bytes@),
{
    let mut h: u64 = state;
    let mut i: usize = 0;
    while i < bytes.len()
        invariant
            i <= bytes.len(),
            h == absorb(state, bytes@.take(i as int)),
        decreases bytes.len() - i,
    {
        proof {
            assert(bytes@.take(i + 1).drop_last() =~= bytes@.take(i as int));
        }
        h = (h ^ (bytes[i] as u64)).wrapping_mul(FNV_PRIME);
        i = i + 1;
    }
    proof {
        assert(bytes@.take(i as int) =~= bytes@);
    }
    h
}

fn absorb_id(state: u64, experiment_id: i32) -> (r: u64)
    ensures
        r == absorb(state, id_bytes(experiment_id)),
{
    let biased: u64 = (experiment_id as i64 + 0x8000_0000) as u64;
    let b0: u8 = (biased / 0x100_0000) as u8;
    let b1: u8 = (biased / 0x1_0000 % 0x100) as u8;
    let b2: u8 = (biased / 0x100 % 0x100) as u8;
    let b3: u8 = (biased % 0x100) as u8;
    let h0: u64 = (state ^ (b0 as u64)).wrapping_mul(FNV_PRIME);
    let h1: u64 = (h0 ^ (b1 as u64)).wrapping_mul(FNV_PRIME);
    let h2: u64 = (h1 ^ (b2 as u64)).wrapping_mul(FNV_PRIME);
    let h3: u64 = (h2 ^ (b3 as u64)).wrapping_mul(FNV_PRIME);
    proof {
        let s = id_bytes(experiment_id);
        let s3 = s.drop_last();
        let s2 = s3.drop_last();
        let s1 = s2.drop_last();
        assert(absorb(state, s1.drop_last()) == state);
        assert(absorb(state, s1) == h0);
        assert(absorb(state, s2) == h1);
        assert(absorb(state, s3) == h2);
    }
    h3
}

/// The bucket that the unit `identity` falls into for the experiment with the
/// given hashing constant and id.
pub fn bucket_index(identity: &str, hashing_constant: &str, experiment_id: i32) -> (bucket: usize)
    ensures
        bucket == bucket_of(identity@, hashing_constant@, experiment_id),
        bucket < SPECTRUM_WIDTH,
{
    let unit = absorb_bytes(FNV_OFFSET_BASIS, identity.as_bytes());
    let base = absorb_bytes(unit, BASE_HASHING_CONSTANT.as_bytes());
    let constant = absorb_bytes(base, hashing_constant.as_bytes());
    let hash = absorb_id(constant, experiment_id);
    (hash % SPECTRUM_WIDTH) as usize
}

} // verus!
