//! CRC-32 (IEEE) and its accounting with `crc32fast::Hasher`.
//!
//! `crc32_continue` defines the checksum bit by bit. A `Crc32Digest` owns a
//! hasher and remembers, as ghost state, the checksum the hasher started from
//! and every byte fed to it since. Its invariant ties the hasher's current
//! checksum to those two through `crc32_continue`.

use vstd::prelude::*;

use crate::io::{ByteRead, ByteWrite};
use crate::read::crc_32_reader::Crc32Reader;
use crate::write::crc_32_writer::Crc32Writer;

verus! {

#[verifier::external_type_specification]
#[verifier::external_body]
pub struct ExHasher(crc32fast::Hasher);

/// What `crc32fast::Hasher::finalize` returns for a hasher: its current
/// CRC-32 value.
pub uninterp spec fn hasher_checksum(h: crc32fast::Hasher) -> u32;

/// What `crc32fast::Hasher::total_len` returns for a hasher: the number of
/// bytes it has been fed, plus the length it was created with.
pub uninterp spec fn hasher_total_len(h: crc32fast::Hasher) -> u64;

/// One step of the bitwise CRC-32 (IEEE) register: shift right by one and,
/// when a one bit falls out, fold in the reflected polynomial `0xEDB88320`.
pub open spec fn crc32_shift(reg: u32) -> u32 {
    if reg & 1u32 == 1u32 {
        (reg >> 1u32) ^ 0xEDB8_8320u32
    } else {
        reg >> 1u32
    }
}

/// The register after taking in the byte `b`: the byte is xored into the
/// low bits, then the register steps eight times.
pub open spec fn crc32_byte(reg: u32, b: u8) -> u32 {
    crc32_shift(
        crc32_shift(
            crc32_shift(
                crc32_shift(crc32_shift(crc32_shift(crc32_shift(crc32_shift(reg ^ (b as u32)))))),
            ),
        ),
    )
}

/// The register after taking in `bytes`, first byte first.
pub open spec fn crc32_register(reg: u32, bytes: Seq<u8>) -> u32
    decreases bytes.len(),
{
    if bytes.len() == 0 {
        reg
    } else {
        crc32_register(crc32_byte(reg, bytes[0]), bytes.drop_first())
    }
}

/// The CRC-32 (IEEE) checksum reached by continuing the checksum `crc` over
/// `bytes`: the register starts as the complement of `crc` and is
/// complemented again at the end. Continued from 0, this is the CRC-32 of
/// `bytes`.
pub open spec fn crc32_continue(crc: u32, bytes: Seq<u8>) -> u32 {
    !crc32_register(!crc, bytes)
}

/// Taking in `a` and then `b` is taking in `a + b`.
proof fn lemma_register_concat(reg: u32, a: Seq<u8>, b: Seq<u8>)
    ensures
        crc32_register(crc32_register(reg, a), b) == crc32_register(reg, a + b),
    decreases a.len(),
{
    if a.len() == 0 {
        assert(a + b =~= b);
    } else {
        lemma_register_concat(crc32_byte(reg, a[0]), a.drop_first(), b);
        assert((a + b).drop_first() =~= a.drop_first() + b);
        assert((a + b)[0] == a[0]);
    }
}

/// Continuing a checksum over nothing leaves it as it is, and continuing it
/// over `a` and then over `b` is continuing it over `a + b`: the checksum of
/// a stream does not depend on how its bytes were split into pieces.
pub proof fn lemma_crc32_continue_concat(crc: u32, a: Seq<u8>, b: Seq<u8>)
    ensures
        crc32_continue(crc, Seq::empty()) == crc,
        crc32_continue(crc32_continue(crc, a), b) == crc32_continue(crc, a + b),
{
    let r = crc32_register(!crc, a);
    assert(!(!r) == r) by (bit_vector);
    assert(!(!crc) == crc) by (bit_vector);
    lemma_register_concat(!crc, a, b);
}

/// The checksum reached by continuing `crc` over each of `pieces` in turn.
pub open spec fn crc32_over_pieces(crc: u32, pieces: Seq<Seq<u8>>) -> u32
    decreases pieces.len(),
{
    if pieces.len() == 0 {
        crc
    } else {
        crc32_over_pieces(crc32_continue(crc, pieces[0]), pieces.drop_first())
    }
}

/// However a stream's bytes are split into pieces (the chunks of successive
/// reads or writes), continuing a checksum over the pieces one after another
/// gives the checksum over all the bytes together.
pub proof fn lemma_crc32_over_pieces(crc: u32, pieces: Seq<Seq<u8>>)
    ensures
        crc32_over_pieces(crc, pieces) == crc32_continue(crc, pieces.flatten()),
    decreases pieces.len(),
{
    if pieces.len() == 0 {
        lemma_crc32_continue_concat(crc, Seq::empty(), Seq::empty());
    } else {
        lemma_crc32_over_pieces(crc32_continue(crc, pieces[0]), pieces.drop_first());
        lemma_crc32_continue_concat(crc, pieces[0], pieces.drop_first().flatten());
    }
}

/// Taking in the bytes of `s` from index `i` on is taking in `s[i]` and
/// then the bytes after it.
proof fn lemma_register_step(reg: u32, s: Seq<u8>, i: int)
    requires
        0 <= i < s.len(),
    ensures
        crc32_register(reg, s.subrange(i, s.len() as int)) == crc32_register(
            crc32_byte(reg, s[i]),
            s.subrange(i + 1, s.len() as int),
        ),
{
    assert(s.subrange(i, s.len() as int).drop_first() =~= s.subrange(i + 1, s.len() as int));
}

/// The standard check value: the CRC-32 of the ASCII digits `123456789` is
/// `0xCBF43926`.
pub proof fn lemma_crc32_check_value()
    ensures
        crc32_continue(0, seq![0x31u8, 0x32u8, 0x33u8, 0x34u8, 0x35u8, 0x36u8, 0x37u8, 0x38u8, 0x39u8])
            == 0xCBF4_3926u32,
{
    let s = seq![0x31u8, 0x32u8, 0x33u8, 0x34u8, 0x35u8, 0x36u8, 0x37u8, 0x38u8, 0x39u8];
    assert(!0u32 == 0xFFFF_FFFFu32) by (bit_vector);
    assert(crc32_byte(0xFFFF_FFFFu32, 0x31u8) == 0x7c23_1048u32) by (bit_vector);
    assert(crc32_byte(0x7c23_1048u32, 0x32u8) == 0xb0ac_bb32u32) by (bit_vector);
    assert(crc32_byte(0xb0ac_bb32u32, 0x33u8) == 0x77b7_9c2du32) by (bit_vector);
    assert(crc32_byte(0x77b7_9c2du32, 0x34u8) == 0x641c_1f5cu32) by (bit_vector);
    assert(crc32_byte(0x641c_1f5cu32, 0x35u8) == 0x340a_c5e3u32) by (bit_vector);
    assert(crc32_byte(0x340a_c5e3u32, 0x36u8) == 0xf68d_2c9eu32) by (bit_vector);
    assert(crc32_byte(0xf68d_2c9eu32, 0x37u8) == 0xaffc_9660u32) by (bit_vector);
    assert(crc32_byte(0xaffc_9660u32, 0x38u8) == 0x651f_2550u32) by (bit_vector);
    assert(crc32_byte(0x651f_2550u32, 0x39u8) == 0x340b_c6d9u32) by (bit_vector);
    assert(!0x340b_c6d9u32 == 0xCBF4_3926u32) by (bit_vector);
    assert(s.subrange(0, 9) =~= s);
    lemma_register_step(0xFFFF_FFFFu32, s, 0);
    lemma_register_step(0x7c23_1048u32, s, 1);
    lemma_register_step(0xb0ac_bb32u32, s, 2);
    lemma_register_step(0x77b7_9c2du32, s, 3);
    lemma_register_step(0x641c_1f5cu32, s, 4);
    lemma_register_step(0x340a_c5e3u32, s, 5);
    lemma_register_step(0xf68d_2c9eu32, s, 6);
    lemma_register_step(0xaffc_9660u32, s, 7);
    lemma_register_step(0x651f_2550u32, s, 8);
    assert(s.subrange(9, 9) =~= Seq::<u8>::empty());
}

/// Calls `crc32fast::Hasher::new`.
///
/// Trusted: a new hasher has checksum 0 and has counted no bytes.
#[verifier::external_body]
fn hasher_new() -> (h: crc32fast::Hasher)
    ensures
        hasher_checksum(h) == 0,
        hasher_total_len(h) == 0,
{
    crc32fast::Hasher::new()
}

/// A hasher that has been fed nothing: its checksum is 0 and it can count
/// `u64::MAX` bytes.
pub fn new_hasher() -> (h: crc32fast::Hasher)
    ensures
        hasher_checksum(h) == 0,
        hasher_total_len(h) == 0,
{
    hasher_new()
}

/// Calls `crc32fast::Hasher::update`.
///
/// Trusted: `update` adds the length of `bytes` to the byte count (it
/// panics in debug builds if the count overflows, which `requires` rules
/// out) and moves the checksum to its CRC-32 continuation over `bytes`. It
/// does not panic otherwise.
#[verifier::external_body]
fn hasher_update(h: &mut crc32fast::Hasher, bytes: &[u8])
    requires
        hasher_total_len(*old(h)) + bytes@.len() <= u64::MAX,
    ensures
        hasher_checksum(*final(h)) == crc32_continue(hasher_checksum(*old(h)), bytes@),
        hasher_total_len(*final(h)) == hasher_total_len(*old(h)) + bytes@.len(),
    no_unwind
{
    h.update(bytes)
}

/// Calls `crc32fast::Hasher::total_len`.
///
/// Trusted: it returns the hasher's byte count.
#[verifier::external_body]
fn hasher_count(h: &crc32fast::Hasher) -> (n: u64)
    ensures
        n == hasher_total_len(*h),
{
    h.total_len()
}

/// Calls `crc32fast::Hasher::finalize`.
///
/// Trusted: it returns the hasher's current checksum.
#[verifier::external_body]
fn hasher_finalize(h: crc32fast::Hasher) -> (r: u32)
    ensures
        r == hasher_checksum(h),
{
    h.finalize()
}

/// Calls `<crc32fast::Hasher as core::hash::Hasher>::finish`.
///
/// Trusted: it returns the checksum a copy of the hasher would finalize to,
/// widened to `u64`, and leaves the hasher as it is.
#[verifier::external_body]
fn hasher_finish(h: &crc32fast::Hasher) -> (r: u64)
    ensures
        r == hasher_checksum(*h) as u64,
{
    core::hash::Hasher::finish(h)
}

/// A hasher with the checksum it started from and the bytes fed to it since,
/// not yet known to agree.
struct DigestState {
    hasher: crc32fast::Hasher,
    start: Ghost<u32>,
    fed: Ghost<Seq<u8>>,
}

spec fn state_agrees(s: DigestState) -> bool {
    hasher_checksum(s.hasher) == crc32_continue(s.start@, s.fed@)
}

/// Feeds `bytes` to the hasher of `s` and records them.
fn feed(s: &mut DigestState, bytes: &[u8])
    requires
        state_agrees(*old(s)),
        hasher_total_len(old(s).hasher) + bytes@.len() <= u64::MAX,
    ensures
        state_agrees(*final(s)),
        final(s).start@ == old(s).start@,
        final(s).fed@ == old(s).fed@ + bytes@,
        hasher_total_len(final(s).hasher) == hasher_total_len(old(s).hasher) + bytes@.len(),
    no_unwind
{
    proof {
        lemma_crc32_continue_concat(s.start@, s.fed@, bytes@);
    }
    hasher_update(&mut s.hasher, bytes);
    proof {
        s.fed@ = s.fed@ + bytes@;
    }
}

/// A hasher together with the checksum it started from and the bytes fed to
/// it since.
pub struct Crc32Digest {
    state: DigestState,
}

impl Crc32Digest {
    #[verifier::type_invariant]
    spec fn inv(self) -> bool {
        state_agrees(self.state)
    }

    /// The checksum of the hasher when it was taken over.
    pub closed spec fn start(&self) -> u32 {
        self.state.start@
    }

    /// Every byte fed since the hasher was taken over.
    pub closed spec fn fed(&self) -> Seq<u8> {
        self.state.fed@
    }

    /// The hasher itself.
    pub closed spec fn hasher(&self) -> crc32fast::Hasher {
        self.state.hasher
    }

    /// The hasher's current checksum.
    pub open spec fn checksum(&self) -> u32 {
        crc32_continue(self.start(), self.fed())
    }

    /// How many more bytes the hasher can count.
    pub open spec fn room(&self) -> nat {
        (u64::MAX - hasher_total_len(self.hasher())) as nat
    }

    /// Takes over `hasher`, whatever it has been fed before.
    pub fn new(hasher: crc32fast::Hasher) -> (d: Self)
        ensures
            d.start() == hasher_checksum(hasher),
            d.fed() == Seq::<u8>::empty(),
            d.hasher() == hasher,
    {
        proof {
            lemma_crc32_continue_concat(hasher_checksum(hasher), Seq::empty(), Seq::empty());
        }
        Crc32Digest {
            state: DigestState {
                hasher,
                start: Ghost(hasher_checksum(hasher)),
                fed: Ghost(Seq::empty()),
            },
        }
    }

    /// Feeds `bytes` to the hasher.
    pub fn update(&mut self, bytes: &[u8])
        requires
            bytes@.len() <= old(self).room(),
        ensures
            final(self).start() == old(self).start(),
            final(self).fed() == old(self).fed() + bytes@,
            final(self).room() == old(self).room() - bytes@.len(),
    {
        proof {
            use_type_invariant(&*self);
        }
        feed(&mut self.state, bytes);
    }

    /// How many more bytes the hasher can count.
    pub fn room_left(&self) -> (n: u64)
        ensures
            n == self.room(),
    {
        u64::MAX - hasher_count(&self.state.hasher)
    }

    /// The hasher's current checksum, keeping the hasher.
    pub fn current(&self) -> (r: u32)
        ensures
            r == self.checksum(),
    {
        proof {
            use_type_invariant(self);
        }
        let wide: u64 = hasher_finish(&self.state.hasher);
        wide as u32
    }

    /// The hasher's current checksum.
    pub fn finish(self) -> (r: u32)
        ensures
            r == self.checksum(),
    {
        proof {
            use_type_invariant(&self);
        }
        hasher_finalize(self.state.hasher)
    }

    /// Gives the hasher back.
    pub fn into_hasher(self) -> (h: crc32fast::Hasher)
        ensures
            h == self.hasher(),
            hasher_checksum(h) == self.checksum(),
    {
        proof {
            use_type_invariant(&self);
        }
        self.state.hasher
    }
}

/// What a checksumming reader computes over bytes that a checksumming writer
/// wrote is what the writer computed: both depend only on the checksum they
/// start from and on the bytes, not on how the bytes were split into calls.
pub proof fn lemma_write_read_checksums_agree<W: ByteWrite, R: ByteRead>(
    writer: Crc32Writer<W>,
    reader: Crc32Reader<R>,
)
    requires
        writer.start() == reader.start(),
        writer.sent() == reader.consumed(),
    ensures
        writer.checksum() == reader.checksum(),
{
}

} // verus!
