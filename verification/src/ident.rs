//! Fixed-width hashed identifiers.
//!
//! A `FuncId` is a 16-byte value produced by a deterministic,
//! non-cryptographic keyed hash of a (namespace, name) pair. Cores and
//! functions are both named this way: the namespace of a function is the
//! name of the core that exports it, so equally named exports of two cores
//! get distinct identifiers. The hash is a pure function of its inputs;
//! collisions are possible in principle and are treated as a hard
//! registration error by the registries, never silently resolved.

use vstd::prelude::*;

verus! {

use vstd::wrapping::u64_specs;
use vstd::string::StringSliceAdditionalSpecFns;

/// Multiplier folded in after every input byte.
pub const HASH_PRIME: u64 = 0x100000001b3;

/// Initial state of the lane that fills the first eight bytes.
pub const SEED_HI: u64 = 0xcbf29ce484222325;

/// Initial state of the lane that fills the last eight bytes.
pub const SEED_LO: u64 = 0x9e3779b97f4a7c15;

/// First finalization multiplier.
pub const MIX_A: u64 = 0xff51afd7ed558ccd;

/// Second finalization multiplier.
pub const MIX_B: u64 = 0xc4ceb9fe1a85ec53;

/// One step of the byte fold: absorb `b` into the running state `h`.
pub open spec fn mix(h: u64, b: u8) -> u64 {
    u64_specs::wrapping_mul(h ^ (b as u64), HASH_PRIME)
}

/// Fold a whole byte sequence into the running state, front to back.
pub open spec fn hash_bytes(h0: u64, s: Seq<u8>) -> u64
    decreases s.len(),
{
    if s.len() == 0 {
        h0
    } else {
        mix(hash_bytes(h0, s.drop_last()), s.last())
    }
}

/// Final avalanche, so that nearby inputs spread over the whole lane.
pub open spec fn scramble(h: u64) -> u64 {
    let a = u64_specs::wrapping_mul(h ^ (h >> 33), MIX_A);
    let b = u64_specs::wrapping_mul(a ^ (a >> 29), MIX_B);
    b ^ (b >> 32)
}

/// One 64-bit lane of the identifier hash. The namespace length is folded
/// in between the two parts, so ("ab", "c") and ("a", "bc") differ.
pub open spec fn lane(seed: u64, ns: Seq<u8>, nm: Seq<u8>) -> u64 {
    let a = hash_bytes(seed, ns);
    let b = hash_bytes(u64_specs::wrapping_mul(a ^ (ns.len() as u64), HASH_PRIME), nm);
    scramble(b ^ (nm.len() as u64))
}

/// A 16-byte identifier, held as two 64-bit halves of its big-endian value.
#[derive(Clone, Copy, PartialEq, Eq, Structural, Debug)]
pub struct FuncId {
    /// The first eight bytes of the identifier, big-endian.
    pub hi: u64,
    /// The last eight bytes of the identifier, big-endian.
    pub lo: u64,
}

/// The identifier that the keyed hash assigns to a (namespace, name) pair
/// of UTF-8 byte sequences.
pub open spec fn spec_from_name(ns: Seq<u8>, nm: Seq<u8>) -> FuncId {
    FuncId { hi: lane(SEED_HI, ns, nm), lo: lane(SEED_LO, ns, nm) }
}

/// Exec mirror of `hash_bytes`.
fn hash_bytes_exec(h0: u64, s: &[u8]) -> (r: u64)
    ensures
        r == hash_bytes(h0, s@),
{
    let mut h: u64 = h0;
    let mut i: usize = 0;
    while i < s.len()
        invariant
            0 <= i <= s@.len(),
            h == hash_bytes(h0, s@.take(i as int)),
        decreases s@.len() - i,
    {
        proof {
            assert(s@.take(i + 1).drop_last() =~= s@.take(i as int));
            assert(s@.take(i + 1).last() == s@[i as int]);
        }
        h = (h ^ (s[i] as u64)).wrapping_mul(HASH_PRIME);
        i = i + 1;
    }
    proof {
        assert(s@.take(s@.len() as int) =~= s@);
    }
    h
}

/// Exec mirror of `lane`.
fn lane_exec(seed: u64, ns: &[u8], nm: &[u8]) -> (r: u64)
    ensures
        r == lane(seed, ns@, nm@),
{
    let a: u64 = hash_bytes_exec(seed, ns);
    let b: u64 = hash_bytes_exec((a ^ (ns.len() as u64)).wrapping_mul(HASH_PRIME), nm);
    let c: u64 = b ^ (nm.len() as u64);
    let d: u64 = (c ^ (c >> 33)).wrapping_mul(MIX_A);
    let e: u64 = (d ^ (d >> 29)).wrapping_mul(MIX_B);
    e ^ (e >> 32)
}

impl FuncId {
    /// Hash a (namespace, name) pair into an identifier. This is the only
    /// way a component may construct an identifier, other than reading one
    /// literally from a 16-byte wire or memory buffer.
    pub fn from_name(plugin_name: &str, func_name: &str) -> (r: FuncId)
        ensures
            r == spec_from_name(plugin_name.spec_bytes(), func_name.spec_bytes()),
    {
        let ns: &[u8] = plugin_name.as_bytes();
        let nm: &[u8] = func_name.as_bytes();
        FuncId { hi: lane_exec(SEED_HI, ns, nm), lo: lane_exec(SEED_LO, ns, nm) }
    }
}

/// The eight bytes of `x`, most significant first.
pub open spec fn u64_be_bytes(x: u64) -> Seq<u8> {
    seq![
        ((x >> 56) & 0xff) as u8,
        ((x >> 48) & 0xff) as u8,
        ((x >> 40) & 0xff) as u8,
        ((x >> 32) & 0xff) as u8,
        ((x >> 24) & 0xff) as u8,
        ((x >> 16) & 0xff) as u8,
        ((x >> 8) & 0xff) as u8,
        (x & 0xff) as u8,
    ]
}

/// The value whose big-endian bytes are the first eight of `s`.
pub open spec fn be_u64(s: Seq<u8>) -> u64 {
    ((s[0] as u64) << 56) | ((s[1] as u64) << 48) | ((s[2] as u64) << 40) | ((s[3] as u64) << 32)
        | ((s[4] as u64) << 24) | ((s[5] as u64) << 16) | ((s[6] as u64) << 8) | (s[7] as u64)
}

/// The identifier's wire form: exactly 16 bytes, both halves big-endian.
/// This layout is stable across backend kinds.
pub open spec fn spec_id_bytes(id: FuncId) -> Seq<u8> {
    u64_be_bytes(id.hi) + u64_be_bytes(id.lo)
}

/// The identifier a 16-byte wire or memory buffer denotes.
pub open spec fn spec_id_from_bytes(s: Seq<u8>) -> FuncId {
    FuncId { hi: be_u64(s.subrange(0, 8)), lo: be_u64(s.subrange(8, 16)) }
}

impl FuncId {
    /// The identifier's 16 wire bytes.
    pub fn to_bytes(&self) -> (r: Vec<u8>)
        ensures
            r@ == spec_id_bytes(*self),
            r@.len() == 16,
    {
        let mut v: Vec<u8> = Vec::new();
        v.push(((self.hi >> 56) & 0xff) as u8);
        v.push(((self.hi >> 48) & 0xff) as u8);
        v.push(((self.hi >> 40) & 0xff) as u8);
        v.push(((self.hi >> 32) & 0xff) as u8);
        v.push(((self.hi >> 24) & 0xff) as u8);
        v.push(((self.hi >> 16) & 0xff) as u8);
        v.push(((self.hi >> 8) & 0xff) as u8);
        v.push((self.hi & 0xff) as u8);
        v.push(((self.lo >> 56) & 0xff) as u8);
        v.push(((self.lo >> 48) & 0xff) as u8);
        v.push(((self.lo >> 40) & 0xff) as u8);
        v.push(((self.lo >> 32) & 0xff) as u8);
        v.push(((self.lo >> 24) & 0xff) as u8);
        v.push(((self.lo >> 16) & 0xff) as u8);
        v.push(((self.lo >> 8) & 0xff) as u8);
        v.push((self.lo & 0xff) as u8);
        proof {
            assert(v@ =~= spec_id_bytes(*self));
        }
        v
    }

    /// Read an identifier literally from a wire or memory buffer; refused
    /// unless the buffer holds exactly 16 bytes.
    pub fn from_bytes(b: &[u8]) -> (r: Option<FuncId>)
        ensures
            b@.len() == 16 ==> (r matches Some(id) && id == spec_id_from_bytes(b@)),
            b@.len() != 16 ==> r is None,
    {
        if b.len() != 16 {
            return None;
        }
        let hi: u64 = ((b[0] as u64) << 56) | ((b[1] as u64) << 48) | ((b[2] as u64) << 40) | ((
        b[3] as u64) << 32) | ((b[4] as u64) << 24) | ((b[5] as u64) << 16) | ((b[6] as u64) << 8)
            | (b[7] as u64);
        let lo: u64 = ((b[8] as u64) << 56) | ((b[9] as u64) << 48) | ((b[10] as u64) << 40) | ((
        b[11] as u64) << 32) | ((b[12] as u64) << 24) | ((b[13] as u64) << 16) | ((
        b[14] as u64) << 8) | (b[15] as u64);
        proof {
            assert(hi == be_u64(b@.subrange(0, 8))) by {
                assert forall|k: int| 0 <= k < 8 implies #[trigger] b@.subrange(0, 8)[k]
                    == b@[k] by {}
            }
            assert(lo == be_u64(b@.subrange(8, 16))) by {
                assert forall|k: int| 0 <= k < 8 implies #[trigger] b@.subrange(8, 16)[k] == b@[k
                    + 8] by {}
            }
        }
        Some(FuncId { hi, lo })
    }
}

/// One 64-bit half survives the byte round trip.
proof fn lemma_be_u64_round_trip(x: u64)
    ensures
        be_u64(u64_be_bytes(x)) == x,
{
    assert((((((x >> 56) & 0xff) as u8) as u64) << 56) | (((((x >> 48) & 0xff) as u8) as u64)
        << 48) | (((((x >> 40) & 0xff) as u8) as u64) << 40) | (((((x >> 32) & 0xff) as u8) as u64)
        << 32) | (((((x >> 24) & 0xff) as u8) as u64) << 24) | (((((x >> 16) & 0xff) as u8) as u64)
        << 16) | (((((x >> 8) & 0xff) as u8) as u64) << 8) | (((x & 0xff) as u8) as u64)
        == x) by (bit_vector);
}

/// An identifier written to its 16 wire bytes and read back literally is
/// the same identifier, whichever backend kind carried the bytes.
pub proof fn lemma_id_wire_round_trip(id: FuncId)
    ensures
        spec_id_from_bytes(spec_id_bytes(id)) == id,
{
    let s = spec_id_bytes(id);
    assert(s.subrange(0, 8) =~= u64_be_bytes(id.hi));
    assert(s.subrange(8, 16) =~= u64_be_bytes(id.lo));
    lemma_be_u64_round_trip(id.hi);
    lemma_be_u64_round_trip(id.lo);
}

/// The hash is deterministic: equal (namespace, name) inputs give equal
/// 16-byte identifiers. `FuncId::from_name` returns exactly
/// `spec_from_name` of its inputs' bytes, so two calls on equal strings
/// return equal identifiers.
pub proof fn lemma_from_name_deterministic(ns1: Seq<u8>, nm1: Seq<u8>, ns2: Seq<u8>, nm2: Seq<u8>)
    requires
        ns1 == ns2,
        nm1 == nm2,
    ensures
        spec_from_name(ns1, nm1) == spec_from_name(ns2, nm2),
{
}

} // verus!
