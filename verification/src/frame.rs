//! The byte layout of a payload, and why reading it back gives what was
//! written.

use vstd::prelude::*;

use crate::read::error::ReadError;
use crate::read::fields::record_outcome;
use crate::read::readable::{ConversionError, Readable};
use crate::write::writeable::Writeable;

verus! {

/// The bytes of `fields` written one after the other.
pub open spec fn fields_bytes<T: Writeable>(fields: Seq<T>) -> Seq<u8>
    decreases fields.len(),
{
    if fields.len() == 0 {
        Seq::empty()
    } else {
        fields_bytes(fields.drop_last()) + fields.last().encoded()
    }
}

/// The bytes of a payload: its metadata record, then its field records.
pub open spec fn frame_bytes<M: Writeable, T: Writeable>(metadata: M, fields: Seq<T>) -> Seq<
    u8,
> {
    metadata.encoded() + fields_bytes(fields)
}

/// The bytes of the `i`-th field record in the bytes of a payload, as a
/// reader takes them: after the metadata record's `M::SIZE` bytes, `T::SIZE`
/// bytes per field record.
pub open spec fn field_record<M: Readable, T: Readable>(bytes: Seq<u8>, i: int) -> Seq<u8> {
    bytes.subrange(M::SIZE + i * T::SIZE, M::SIZE + (i + 1) * T::SIZE)
}

/// Writing one more field record appends its bytes.
pub proof fn lemma_fields_bytes_push<T: Writeable>(fields: Seq<T>, field: T)
    ensures
        fields_bytes(fields.push(field)) == fields_bytes(fields) + field.encoded(),
{
    assert(fields.push(field).drop_last() =~= fields);
}

/// When every field record is written as `size` bytes, the `i`-th one takes
/// bytes `i * size` to `(i + 1) * size`.
pub proof fn lemma_fields_bytes_layout<T: Writeable>(fields: Seq<T>, size: nat)
    requires
        forall|i: int| 0 <= i < fields.len() ==> (#[trigger] fields[i]).encoded().len() == size,
    ensures
        fields_bytes(fields).len() == fields.len() * size,
        forall|i: int|
            0 <= i < fields.len() ==> fields_bytes(fields).subrange(i * size, (i + 1) * size)
                == (#[trigger] fields[i]).encoded(),
    decreases fields.len(),
{
    if fields.len() > 0 {
        let init = fields.drop_last();
        lemma_fields_bytes_layout(init, size);
        let n: nat = init.len();
        assert(fields_bytes(fields) == fields_bytes(init) + fields.last().encoded());
        assert((n + 1) * size == n * size + size) by (nonlinear_arith);
        assert forall|i: int| 0 <= i < fields.len() implies fields_bytes(fields).subrange(
            i * size,
            (i + 1) * size,
        ) == (#[trigger] fields[i]).encoded() by {
            assert(0 <= i * size) by (nonlinear_arith)
                requires
                    0 <= i,
            ;
            assert((i + 1) * size == i * size + size) by (nonlinear_arith);
            if i < n {
                assert(init[i] == fields[i]);
                assert((i + 1) * size <= n * size) by (nonlinear_arith)
                    requires
                        i + 1 <= n,
                ;
                assert(fields_bytes(fields).subrange(i * size, (i + 1) * size)
                    =~= fields_bytes(init).subrange(i * size, (i + 1) * size));
            } else {
                assert(i == n);
                assert(fields_bytes(fields).subrange(i * size, (i + 1) * size)
                    =~= fields.last().encoded());
            }
        }
    }
}

/// Reading back a written payload gives what was written: when each record
/// is written as exactly the bytes its type reads, and those bytes read as
/// the record again, then in the payload's bytes the metadata record reads
/// as `metadata` and the `i`-th field record as `fields[i]`, and the payload
/// holds nothing else.
pub proof fn lemma_frame_round_trip<M: Writeable + Readable, T: Writeable + Readable>(
    metadata: M,
    fields: Seq<T>,
)
    requires
        metadata.encoded().len() == <M as Readable>::SIZE,
        <M as Readable>::decoded(metadata.encoded()) == Ok::<M, ConversionError>(metadata),
        forall|i: int|
            0 <= i < fields.len() ==> (#[trigger] fields[i]).encoded().len()
                == <T as Readable>::SIZE,
        forall|i: int|
            0 <= i < fields.len() ==> <T as Readable>::decoded((#[trigger] fields[i]).encoded())
                == Ok::<T, ConversionError>(fields[i]),
    ensures
        frame_bytes(metadata, fields).len() == <M as Readable>::SIZE + fields.len()
            * <T as Readable>::SIZE,
        <M as Readable>::decoded(frame_bytes(metadata, fields).take(<M as Readable>::SIZE as int))
            == Ok::<M, ConversionError>(metadata),
        forall|i: int|
            0 <= i < fields.len() ==> <T as Readable>::decoded(
                #[trigger] field_record::<M, T>(frame_bytes(metadata, fields), i),
            ) == Ok::<T, ConversionError>(fields[i]),
{
    let m: nat = <M as Readable>::SIZE as nat;
    let s: nat = <T as Readable>::SIZE as nat;
    let body = fields_bytes(fields);
    let bytes = frame_bytes(metadata, fields);
    lemma_fields_bytes_layout(fields, s);
    assert(bytes.take(m as int) =~= metadata.encoded());
    assert forall|i: int| 0 <= i < fields.len() implies <T as Readable>::decoded(
        #[trigger] field_record::<M, T>(bytes, i),
    ) == Ok::<T, ConversionError>(fields[i]) by {
        assert(0 <= i * s) by (nonlinear_arith)
            requires
                0 <= i,
        ;
        assert((i + 1) * s <= fields.len() * s) by (nonlinear_arith)
            requires
                i + 1 <= fields.len(),
        ;
        assert((i + 1) * s == i * s + s) by (nonlinear_arith);
        assert(body.subrange(i * s, (i + 1) * s) == fields[i].encoded());
        let lo: int = m + i * s;
        let hi: int = m + (i + 1) * s;
        assert(field_record::<M, T>(bytes, i) == bytes.subrange(lo, hi));
        assert(hi <= bytes.len());
        assert(bytes.subrange(lo, hi) =~= body.subrange(i * s, (i + 1) * s)) by {
            assert forall|k: int| 0 <= k < hi - lo implies bytes.subrange(lo, hi)[k]
                == body.subrange(i * s, (i + 1) * s)[k] by {
                assert(bytes[lo + k] == body[i * s + k]);
            }
        }
    }
}

/// What a reliable stream hands back of a written payload: when its pending
/// bytes are a payload's bytes followed by anything else, reading the
/// metadata record gives `metadata`, reading the `i`-th field record after it
/// gives `fields[i]`, and after the last field record exactly the bytes that
/// followed the payload are still pending.
pub proof fn lemma_payload_reads_back<M: Writeable + Readable, T: Writeable + Readable, E>(
    metadata: M,
    fields: Seq<T>,
    rest: Seq<u8>,
)
    requires
        metadata.encoded().len() == <M as Readable>::SIZE,
        <M as Readable>::decoded(metadata.encoded()) == Ok::<M, ConversionError>(metadata),
        forall|i: int|
            0 <= i < fields.len() ==> (#[trigger] fields[i]).encoded().len()
                == <T as Readable>::SIZE,
        forall|i: int|
            0 <= i < fields.len() ==> <T as Readable>::decoded((#[trigger] fields[i]).encoded())
                == Ok::<T, ConversionError>(fields[i]),
    ensures
        ({
            let pending = frame_bytes(metadata, fields) + rest;
            &&& record_outcome::<M, E>(pending) == Ok::<M, ReadError<E>>(metadata)
            &&& forall|i: int|
                0 <= i < fields.len() ==> record_outcome::<T, E>(
                    #[trigger] pending.skip(<M as Readable>::SIZE + i * <T as Readable>::SIZE),
                ) == Ok::<T, ReadError<E>>(fields[i])
            &&& pending.skip(<M as Readable>::SIZE + fields.len() * <T as Readable>::SIZE)
                == rest
        }),
{
    let m: int = <M as Readable>::SIZE as int;
    let t: int = <T as Readable>::SIZE as int;
    let bytes = frame_bytes(metadata, fields);
    let pending = bytes + rest;
    lemma_frame_round_trip(metadata, fields);
    assert(pending.take(m) =~= bytes.take(m));
    assert forall|i: int| 0 <= i < fields.len() implies record_outcome::<T, E>(
        #[trigger] pending.skip(m + i * t),
    ) == Ok::<T, ReadError<E>>(fields[i]) by {
        assert(0 <= i * t) by (nonlinear_arith)
            requires
                0 <= i,
                0 <= t,
        ;
        assert((i + 1) * t <= fields.len() * t) by (nonlinear_arith)
            requires
                i + 1 <= fields.len(),
                0 <= t,
        ;
        assert((i + 1) * t == i * t + t) by (nonlinear_arith);
        let after = pending.skip(m + i * t);
        assert(after.len() >= t);
        assert(after.take(t) =~= field_record::<M, T>(bytes, i));
        assert(<T as Readable>::decoded(field_record::<M, T>(bytes, i)) == Ok::<
            T,
            ConversionError,
        >(fields[i]));
    }
    assert(pending.skip(m + fields.len() * t) =~= rest);
}

} // verus!
