//! Bytes, byte arrays and booleans as payload records: each is stored as
//! its in-memory bytes, through `zerocopy`.

use vstd::prelude::*;

use crate::io::ByteWrite;
use crate::read::readable::{ConversionError, Readable};
use crate::write::fields::WritableFrameField;
use crate::write::writeable::Writeable;

verus! {

/// Calls `<u8 as zerocopy::TryFromBytes>::try_read_from_bytes`.
///
/// Trusted: every byte is a valid `u8`, so a one-byte slice reads as its
/// byte, and a slice of any other length is refused for its size.
#[verifier::external_body]
fn u8_try_read_from_bytes(data: &[u8]) -> (r: Result<u8, ConversionError>)
    ensures
        r == <u8 as Readable>::decoded(data@),
{
    match <u8 as zerocopy::TryFromBytes>::try_read_from_bytes(data) {
        Ok(v) => Ok(v),
        Err(_) => Err(ConversionError),
    }
}

/// Calls `<[u8; N] as zerocopy::TryFromBytes>::try_read_from_bytes`.
///
/// Trusted: every byte pattern is a valid byte array, so a slice of exactly
/// `N` bytes reads as the array of those bytes, and a slice of any other
/// length is refused for its size.
#[verifier::external_body]
fn byte_array_try_read_from_bytes<const N: usize>(data: &[u8]) -> (r: Result<
    [u8; N],
    ConversionError,
>)
    ensures
        match r {
            Ok(a) => data@.len() == N && a@ == data@,
            Err(_) => data@.len() != N,
        },
{
    match <[u8; N] as zerocopy::TryFromBytes>::try_read_from_bytes(data) {
        Ok(v) => Ok(v),
        Err(_) => Err(ConversionError),
    }
}

/// Calls `<bool as zerocopy::TryFromBytes>::try_read_from_bytes`.
///
/// Trusted: a boolean is valid only as the byte 0 (`false`) or 1 (`true`),
/// so a one-byte slice holding one of those reads as that boolean, and any
/// other slice is refused.
#[verifier::external_body]
fn bool_try_read_from_bytes(data: &[u8]) -> (r: Result<bool, ConversionError>)
    ensures
        r == <bool as Readable>::decoded(data@),
{
    match <bool as zerocopy::TryFromBytes>::try_read_from_bytes(data) {
        Ok(v) => Ok(v),
        Err(_) => Err(ConversionError),
    }
}

impl Readable for u8 {
    const SIZE: usize = 1;

    open spec fn decoded(data: Seq<u8>) -> Result<u8, ConversionError> {
        if data.len() == 1 {
            Ok(data[0])
        } else {
            Err(ConversionError)
        }
    }

    fn read(data: &[u8]) -> (r: Result<u8, ConversionError>) {
        u8_try_read_from_bytes(data)
    }
}

impl<const N: usize> Readable for [u8; N] {
    const SIZE: usize = N;

    open spec fn decoded(data: Seq<u8>) -> Result<[u8; N], ConversionError> {
        if data.len() == N {
            Ok(choose|a: [u8; N]| a@ == data)
        } else {
            Err(ConversionError)
        }
    }

    fn read(data: &[u8]) -> (r: Result<[u8; N], ConversionError>) {
        let r = byte_array_try_read_from_bytes::<N>(data);
        proof {
            broadcast use vstd::array::group_array_axioms;

            if let Ok(a) = r {
                assert(a@ == data@);
                let c = choose|c: [u8; N]| c@ == data@;
                assert(a =~= c);
            }
        }
        r
    }
}

impl Readable for bool {
    const SIZE: usize = 1;

    open spec fn decoded(data: Seq<u8>) -> Result<bool, ConversionError> {
        if data.len() == 1 && data[0] == 0 {
            Ok(false)
        } else if data.len() == 1 && data[0] == 1 {
            Ok(true)
        } else {
            Err(ConversionError)
        }
    }

    fn read(data: &[u8]) -> (r: Result<bool, ConversionError>) {
        bool_try_read_from_bytes(data)
    }
}

/// Calls `<u8 as zerocopy::IntoBytes>::as_bytes`.
///
/// Trusted: a byte is represented by itself.
#[verifier::external_body]
fn u8_as_bytes(v: &u8) -> (r: &[u8])
    ensures
        r@ == seq![*v],
{
    zerocopy::IntoBytes::as_bytes(v)
}

/// Calls `<[u8; N] as zerocopy::IntoBytes>::as_bytes`.
///
/// Trusted: a byte array is represented by its bytes, in order.
#[verifier::external_body]
fn byte_array_as_bytes<const N: usize>(v: &[u8; N]) -> (r: &[u8])
    ensures
        r@ == v@,
{
    zerocopy::IntoBytes::as_bytes(v)
}

/// Calls `<bool as zerocopy::IntoBytes>::as_bytes`.
///
/// Trusted: a boolean is represented by one byte, 1 for `true` and 0 for
/// `false`.
#[verifier::external_body]
fn bool_as_bytes(v: &bool) -> (r: &[u8])
    ensures
        r@ == seq![if *v { 1u8 } else { 0u8 }],
{
    zerocopy::IntoBytes::as_bytes(v)
}

impl Writeable for u8 {
    open spec fn encoded(&self) -> Seq<u8> {
        seq![*self]
    }

    fn write_to<W: ByteWrite>(&self, writer: &mut W) -> (r: Result<(), W::Error>) {
        writer.write_all(u8_as_bytes(self))
    }
}

impl<const N: usize> Writeable for [u8; N] {
    open spec fn encoded(&self) -> Seq<u8> {
        self@
    }

    fn write_to<W: ByteWrite>(&self, writer: &mut W) -> (r: Result<(), W::Error>) {
        writer.write_all(byte_array_as_bytes(self))
    }
}

impl Writeable for bool {
    open spec fn encoded(&self) -> Seq<u8> {
        seq![if *self { 1u8 } else { 0u8 }]
    }

    fn write_to<W: ByteWrite>(&self, writer: &mut W) -> (r: Result<(), W::Error>) {
        writer.write_all(bool_as_bytes(self))
    }
}

impl WritableFrameField for bool {
    const SIZE: usize = 1;
}

impl WritableFrameField for u8 {
    const SIZE: usize = 1;
}

impl<const N: usize> WritableFrameField for [u8; N] {
    const SIZE: usize = N;
}

/// A byte is written as the single byte that reads back as it, and both
/// sides agree that it takes one byte.
pub proof fn lemma_u8_round_trip(value: u8)
    ensures
        <u8 as Readable>::SIZE == 1,
        value.encoded().len() == <u8 as Readable>::SIZE,
        <u8 as WritableFrameField>::SIZE == <u8 as Readable>::SIZE,
        <u8 as Readable>::decoded(value.encoded()) == Ok::<u8, ConversionError>(value),
{
}

/// A byte record is its byte: the one byte `b` reads as the value `b`, the
/// value `b` is written as the one byte `b`, and no other length of input
/// reads as a byte.
pub proof fn lemma_u8_record_is_its_byte(b: u8, data: Seq<u8>)
    ensures
        <u8 as Readable>::decoded(seq![b]) == Ok::<u8, ConversionError>(b),
        b.encoded() == seq![b],
        data.len() != 1 ==> <u8 as Readable>::decoded(data) is Err,
{
}

/// A boolean record is the byte 0 for `false` and 1 for `true`: those two
/// bytes read as those values, the values are written as those bytes, and
/// every other input is refused.
pub proof fn lemma_bool_record_is_zero_or_one(b: u8, data: Seq<u8>)
    ensures
        <bool as Readable>::decoded(seq![0u8]) == Ok::<bool, ConversionError>(false),
        <bool as Readable>::decoded(seq![1u8]) == Ok::<bool, ConversionError>(true),
        false.encoded() == seq![0u8],
        true.encoded() == seq![1u8],
        b > 1 ==> <bool as Readable>::decoded(seq![b]) is Err,
        data.len() != 1 ==> <bool as Readable>::decoded(data) is Err,
{
}

/// A byte-array record is its bytes: an array is written as its own bytes in
/// order, its bytes read as the array itself, and any other number of bytes
/// than `N` is refused.
pub proof fn lemma_byte_array_record_is_its_bytes<const N: usize>(value: [u8; N], data: Seq<u8>)
    ensures
        value.encoded() == value@,
        <[u8; N] as Readable>::decoded(value@) == Ok::<[u8; N], ConversionError>(value),
        data.len() != N ==> <[u8; N] as Readable>::decoded(data) is Err,
{
    broadcast use vstd::array::group_array_axioms;

    let c = choose|c: [u8; N]| c@ == value@;
    assert(c =~= value);
}

/// A boolean is written as the single byte that reads back as it, and
/// both sides agree that it takes one byte; every byte other than 0 and 1 is
/// refused.
pub proof fn lemma_bool_round_trip(value: bool, byte: u8)
    ensures
        <bool as Readable>::SIZE == 1,
        value.encoded().len() == <bool as Readable>::SIZE,
        <bool as WritableFrameField>::SIZE == <bool as Readable>::SIZE,
        <bool as Readable>::decoded(value.encoded()) == Ok::<bool, ConversionError>(value),
        byte > 1 ==> <bool as Readable>::decoded(seq![byte]) is Err,
{
}

/// A byte array is written as its bytes, which read back as it, and both
/// sides agree that it takes `N` bytes.
pub proof fn lemma_byte_array_round_trip<const N: usize>(value: [u8; N])
    ensures
        <[u8; N] as Readable>::SIZE == N,
        value.encoded().len() == <[u8; N] as Readable>::SIZE,
        <[u8; N] as WritableFrameField>::SIZE == <[u8; N] as Readable>::SIZE,
        <[u8; N] as Readable>::decoded(value.encoded()) == Ok::<[u8; N], ConversionError>(value),
{
    broadcast use vstd::array::group_array_axioms;

    let c = choose|c: [u8; N]| c@ == value@;
    assert(c =~= value);
}

} // verus!
