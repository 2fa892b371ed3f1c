use vstd::prelude::*;

use crate::io::{ByteRead, ReadExactError};
use crate::read::error::ReadError;
use crate::read::readable::{ConversionError, Readable};

verus! {

/// A field record of a payload.
pub trait ReadableFrameField: Readable {

}

impl<T: Readable> ReadableFrameField for T {

}

/// What reading one record of type `T` comes to, given what the stream
/// returned when asked for its `T::SIZE` bytes: the value those bytes
/// represent, `InvalidCast` when they represent none, or the stream's error.
pub fn decode_record<T: Readable, E>(read: Result<Vec<u8>, ReadExactError<E>>) -> (r: Result<
    T,
    ReadError<E>,
>)
    requires
        read matches Ok(bytes) ==> bytes@.len() == T::SIZE,
    ensures
        match read {
            Ok(bytes) => match T::decoded(bytes@) {
                Ok(value) => r == Ok::<T, ReadError<E>>(value),
                Err(_) => r == Err::<T, ReadError<E>>(ReadError::InvalidCast),
            },
            Err(e) => r == Err::<T, ReadError<E>>(ReadError::ReadExact(e)),
        },
{
    match read {
        Ok(bytes) => match T::read(bytes.as_slice()) {
            Ok(value) => Ok(value),
            Err(_) => Err(ReadError::InvalidCast),
        },
        Err(e) => Err(ReadError::ReadExact(e)),
    }
}

/// What reading one record of type `T` from a reliable stream with
/// `pending` bytes comes to: `UnexpectedEof` when fewer than `T::SIZE` bytes
/// are pending; otherwise the value the first `T::SIZE` of them represent, or
/// `InvalidCast` when they represent none.
pub open spec fn record_outcome<T: Readable, E>(pending: Seq<u8>) -> Result<T, ReadError<E>> {
    if pending.len() < T::SIZE {
        Err(ReadError::ReadExact(ReadExactError::UnexpectedEof))
    } else {
        match T::decoded(pending.take(T::SIZE as int)) {
            Ok(value) => Ok(value),
            Err(_) => Err(ReadError::InvalidCast),
        }
    }
}

/// The items that reading up to `n` records from a reliable stream with
/// `pending` bytes gives, in order: the outcome of each record, stopping
/// after the first failure.
pub open spec fn record_outcomes<T: Readable, E>(n: nat, pending: Seq<u8>) -> Seq<
    Result<T, ReadError<E>>,
>
    decreases n,
{
    if n == 0 {
        Seq::empty()
    } else {
        match record_outcome::<T, E>(pending) {
            Ok(value) => seq![Ok(value)] + record_outcomes::<T, E>(
                (n - 1) as nat,
                pending.skip(T::SIZE as int),
            ),
            Err(e) => seq![Err(e)],
        }
    }
}

/// What is still pending after reading up to `n` records from a reliable
/// stream with `pending` bytes: a record that does not decode still takes its
/// bytes, and a stream that ends early is read to its end.
pub open spec fn pending_after_records<T: Readable, E>(n: nat, pending: Seq<u8>) -> Seq<u8>
    decreases n,
{
    if n == 0 {
        pending
    } else if pending.len() < T::SIZE {
        Seq::empty()
    } else {
        match record_outcome::<T, E>(pending) {
            Ok(_) => pending_after_records::<T, E>((n - 1) as nat, pending.skip(T::SIZE as int)),
            Err(_) => pending.skip(T::SIZE as int),
        }
    }
}

/// Reading records one at a time gives their outcomes in order, as `next`
/// gives them one per call: when a record is owed, the first item is the
/// outcome of the first record; after a record the rest are the outcomes of
/// the records after its bytes; after a failure nothing more comes.
pub proof fn lemma_record_outcomes_step<T: Readable, E>(n: nat, pending: Seq<u8>)
    requires
        n > 0,
    ensures
        record_outcomes::<T, E>(n, pending).len() >= 1,
        record_outcomes::<T, E>(n, pending)[0] == record_outcome::<T, E>(pending),
        record_outcome::<T, E>(pending) is Ok ==> record_outcomes::<T, E>(n, pending).drop_first()
            == record_outcomes::<T, E>((n - 1) as nat, pending.skip(T::SIZE as int)),
        record_outcome::<T, E>(pending) is Err ==> record_outcomes::<T, E>(n, pending).len() == 1,
        pending.len() < T::SIZE ==> record_outcomes::<T, E>(n, pending) == seq![
            Err::<T, ReadError<E>>(ReadError::ReadExact(ReadExactError::UnexpectedEof)),
        ],
{
    let all = record_outcomes::<T, E>(n, pending);
    if let Ok(v) = record_outcome::<T, E>(pending) {
        assert(all.drop_first() =~= record_outcomes::<T, E>(
            (n - 1) as nat,
            pending.skip(T::SIZE as int),
        ));
    }
}

/// What reading records leaves pending: every item that is a record or a
/// record that does not decode took its `T::SIZE` bytes, so unless the
/// stream ended early exactly the bytes after `items.len() * T::SIZE` stay
/// pending; a stream that ended early is read to its end.
pub proof fn lemma_pending_after_records_consumed<T: Readable, E>(n: nat, pending: Seq<u8>)
    ensures
        ({
            let items = record_outcomes::<T, E>(n, pending);
            let rest = pending_after_records::<T, E>(n, pending);
            &&& !(items.len() > 0 && (items.last() matches Err(ReadError::ReadExact(_)))) ==> {
                &&& items.len() * T::SIZE <= pending.len()
                &&& rest == pending.skip(items.len() * T::SIZE)
            }
            &&& (items.len() > 0 && (items.last() matches Err(ReadError::ReadExact(_)))) ==> rest.len()
                == 0
        }),
    decreases n,
{
    let s: int = T::SIZE as int;
    let items = record_outcomes::<T, E>(n, pending);
    if n == 0 {
        assert(pending.skip(0) =~= pending);
    } else if pending.len() < s {
        assert(items == seq![
            Err::<T, ReadError<E>>(ReadError::ReadExact(ReadExactError::UnexpectedEof)),
        ]);
    } else {
        match record_outcome::<T, E>(pending) {
            Ok(v) => {
                let m: nat = (n - 1) as nat;
                let tail = pending.skip(s);
                lemma_pending_after_records_consumed::<T, E>(m, tail);
                let sub = record_outcomes::<T, E>(m, tail);
                assert(items =~= seq![Ok::<T, ReadError<E>>(v)] + sub);
                if sub.len() > 0 {
                    assert(items.last() == sub.last());
                }
                assert(items.len() * s == sub.len() * s + s) by (nonlinear_arith)
                    requires
                        items.len() == sub.len() + 1,
                ;
                if !(sub.len() > 0 && (sub.last() matches Err(ReadError::ReadExact(_)))) {
                    assert(tail.skip(sub.len() * s) =~= pending.skip(items.len() * s));
                }
            },
            Err(e) => {
                assert(items == seq![Err::<T, ReadError<E>>(e)]);
                assert(1 * s == s) by (nonlinear_arith);
            },
        }
    }
}

/// Reading records gives at most `n` items, and every item but the last is
/// a record: after a failure nothing more comes.
pub proof fn lemma_record_outcomes_shape<T: Readable, E>(n: nat, pending: Seq<u8>)
    ensures
        record_outcomes::<T, E>(n, pending).len() <= n,
        forall|i: int|
            0 <= i < record_outcomes::<T, E>(n, pending).len() - 1 ==> (#[trigger] record_outcomes::<
                T,
                E,
            >(n, pending)[i]) is Ok,
    decreases n,
{
    if n > 0 {
        lemma_record_outcomes_shape::<T, E>((n - 1) as nat, pending.skip(T::SIZE as int));
        let rest = record_outcomes::<T, E>((n - 1) as nat, pending.skip(T::SIZE as int));
        if record_outcome::<T, E>(pending) is Ok {
            let all = record_outcomes::<T, E>(n, pending);
            assert forall|i: int| 0 <= i < all.len() - 1 implies (#[trigger] all[i]) is Ok by {
                if i > 0 {
                    assert(all[i] == rest[i - 1]);
                }
            }
        }
    }
}

/// Reading `n` records from a reliable stream whose pending bytes hold `n`
/// valid records gives those `n` values in order, and leaves pending exactly
/// what follows them.
pub proof fn lemma_record_outcomes_all_valid<T: Readable, E>(
    n: nat,
    pending: Seq<u8>,
    values: Seq<T>,
)
    requires
        values.len() == n,
        pending.len() >= n * T::SIZE,
        forall|i: int|
            0 <= i < n ==> T::decoded(
                #[trigger] pending.subrange(i * T::SIZE, (i + 1) * T::SIZE),
            ) == Ok::<T, ConversionError>(values[i]),
    ensures
        record_outcomes::<T, E>(n, pending) == values.map_values(
            |v: T| Ok::<T, ReadError<E>>(v),
        ),
        pending_after_records::<T, E>(n, pending) == pending.skip(n * T::SIZE),
    decreases n,
{
    let s: int = T::SIZE as int;
    if n == 0 {
        assert(pending.skip(0) =~= pending);
        assert(values.map_values(|v: T| Ok::<T, ReadError<E>>(v)) =~= Seq::<
            Result<T, ReadError<E>>,
        >::empty());
    } else {
        let m: nat = (n - 1) as nat;
        assert(n * s == m * s + s) by (nonlinear_arith)
            requires
                n == m + 1,
        ;
        assert(0 <= m * s) by (nonlinear_arith)
            requires
                0 <= s,
        ;
        assert(0 * s == 0 && (0 + 1) * s == s) by (nonlinear_arith);
        assert(T::decoded(pending.subrange(0 * s, (0 + 1) * s)) == Ok::<T, ConversionError>(
            values[0],
        ));
        assert(pending.subrange(0, s) =~= pending.take(s));
        let rest = pending.skip(s);
        assert forall|i: int| 0 <= i < m implies T::decoded(
            #[trigger] rest.subrange(i * s, (i + 1) * s),
        ) == Ok::<T, ConversionError>(values.drop_first()[i]) by {
            assert((i + 1) * s == i * s + s) by (nonlinear_arith);
            assert((i + 2) * s == (i + 1) * s + s) by (nonlinear_arith);
            assert(0 <= i * s) by (nonlinear_arith)
                requires
                    0 <= i,
                    0 <= s,
            ;
            assert((i + 2) * s <= n * s) by (nonlinear_arith)
                requires
                    i + 2 <= n,
                    0 <= s,
            ;
            assert(rest.subrange(i * s, (i + 1) * s) =~= pending.subrange(
                (i + 1) * s,
                (i + 1 + 1) * s,
            ));
        }
        lemma_record_outcomes_all_valid::<T, E>(m, rest, values.drop_first());
        assert(rest.skip(m * s) =~= pending.skip(n * s));
        assert(values.map_values(|v: T| Ok::<T, ReadError<E>>(v)) =~= seq![
            Ok::<T, ReadError<E>>(values[0]),
        ] + values.drop_first().map_values(|v: T| Ok::<T, ReadError<E>>(v)));
    }
}

/// Reads up to `num_fields` field records from a stream, one per call of
/// `next`, and stops for good at the first failure.
pub struct FieldIterator<T: ReadableFrameField, R: ByteRead> {
    elements_remaining: usize,
    errored: bool,
    reader: R,
    _frame_type: core::marker::PhantomData<T>,
}

impl<T: ReadableFrameField, R: ByteRead> FieldIterator<T, R> {
    /// How many records may still be read.
    pub closed spec fn elements_remaining(&self) -> usize {
        self.elements_remaining
    }

    /// Whether a read has failed.
    pub closed spec fn errored(&self) -> bool {
        self.errored
    }

    /// The stream.
    pub closed spec fn reader(&self) -> R {
        self.reader
    }

    /// Whether `next` has nothing more to give.
    pub open spec fn is_done(&self) -> bool {
        self.errored() || self.elements_remaining() == 0
    }

    /// The bytes that `after` has consumed beyond `before`.
    pub open spec fn taken(before: R, after: R) -> Seq<u8> {
        after.consumed().skip(before.consumed().len() as int)
    }

    /// An iterator over the next `num_fields` records of `reader`.
    pub fn new(num_fields: usize, reader: R) -> (it: Self)
        ensures
            it.elements_remaining() == num_fields,
            !it.errored(),
            it.reader() == reader,
    {
        Self {
            elements_remaining: num_fields,
            errored: false,
            reader,
            _frame_type: core::marker::PhantomData,
        }
    }

    /// Gives the stream back once every announced record has been read
    /// without a failure; otherwise `InsufficientData`.
    pub fn finish(self) -> (r: Result<R, ReadError<R::Error>>)
        ensures
            if self.is_done() && !self.errored() {
                r == Ok::<R, ReadError<R::Error>>(self.reader())
            } else {
                r == Err::<R, ReadError<R::Error>>(ReadError::InsufficientData)
            },
    {
        if self.errored || self.elements_remaining != 0 {
            return Err(ReadError::InsufficientData);
        }
        Ok(self.reader)
    }

    /// Reads the next record: `None` once all are read or a read has failed;
    /// otherwise the record read from the next `T::SIZE` bytes of the
    /// stream, or why it could not be read.
    pub fn next(&mut self) -> (item: Option<Result<T, ReadError<R::Error>>>)
        requires
            !old(self).is_done() ==> T::SIZE <= old(self).reader().read_limit(),
        ensures
            old(self).is_done() ==> item is None && *final(self) == *old(self),
            !old(self).is_done() ==> {
                let taken = Self::taken(old(self).reader(), final(self).reader());
                let pending = old(self).reader().pending();
                &&& old(self).reader().consumed().is_prefix_of(final(self).reader().consumed())
                &&& taken.len() <= pending.len()
                &&& taken == pending.take(taken.len() as int)
                &&& final(self).reader().pending() == pending.skip(taken.len() as int)
                &&& final(self).reader().reliable() == old(self).reader().reliable()
                &&& final(self).reader().setting() == old(self).reader().setting()
                &&& final(self).reader().source() == old(self).reader().source() + taken
                &&& old(self).reader().reliable() ==> item == Some(
                    record_outcome::<T, R::Error>(pending),
                )
                &&& final(self).reader().read_limit() + final(self).reader().consumed().len()
                    >= old(self).reader().read_limit() + old(self).reader().consumed().len()
                &&& match item {
                    Some(Ok(field)) => {
                        &&& taken.len() == T::SIZE
                        &&& T::decoded(taken) == Ok::<T, ConversionError>(field)
                        &&& final(self).elements_remaining() == old(self).elements_remaining() - 1
                        &&& !final(self).errored()
                    },
                    Some(Err(ReadError::ReadExact(e))) => {
                        &&& taken.len() < T::SIZE
                        &&& final(self).elements_remaining() == old(self).elements_remaining()
                        &&& final(self).errored()
                        &&& e is UnexpectedEof ==> final(self).reader().pending().len() == 0
                    },
                    Some(Err(ReadError::InvalidCast)) => {
                        &&& taken.len() == T::SIZE
                        &&& T::decoded(taken) is Err
                        &&& final(self).elements_remaining() == old(self).elements_remaining() - 1
                        &&& final(self).errored()
                    },
                    _ => false,
                }
            },
    {
        if self.errored || self.elements_remaining == 0 {
            return None;
        }
        let ghost before = self.reader;
        let read = self.reader.read_exact(T::SIZE);
        proof {
            let k = self.reader.consumed().len() - before.consumed().len();
            assert(Self::taken(before, self.reader) =~= before.pending().take(k));
            assert(before.consumed().is_prefix_of(self.reader.consumed())) by {
                assert(self.reader.consumed().take(before.consumed().len() as int)
                    =~= before.consumed());
            }
        }
        if let Ok(bytes) = &read {
            self.elements_remaining = self.elements_remaining - 1;
        }
        let record = decode_record::<T, R::Error>(read);
        if record.is_err() {
            self.errored = true;
        }
        Some(record)
    }

    /// How many records `next` may still give: none once a read has failed.
    pub open spec fn records_left(&self) -> nat {
        if self.errored() {
            0
        } else {
            self.elements_remaining() as nat
        }
    }

    /// Reads every remaining record, as calling `next` until it gives `None`
    /// does, and returns the items in order. At most one item is a failure,
    /// and it is the last; the iterator is done afterwards, and it ended
    /// without a failure exactly when every announced record was read. From a
    /// reliable stream the items are `record_outcomes` of its pending bytes.
    pub fn collect_items(&mut self) -> (items: Vec<Result<T, ReadError<R::Error>>>)
        requires
            old(self).records_left() * T::SIZE <= old(self).reader().read_limit(),
        ensures
            final(self).is_done(),
            items@.len() <= old(self).records_left(),
            forall|i: int| 0 <= i < items@.len() - 1 ==> (#[trigger] items@[i]) is Ok,
            old(self).records_left() > 0 ==> items@.len() > 0,
            !old(self).errored() && final(self).errored() ==> items@.len() > 0 && items@.last() is Err,
            !old(self).errored() ==> (!final(self).errored() <==> (items@.len()
                == old(self).records_left() && forall|i: int|
                0 <= i < items@.len() ==> (#[trigger] items@[i]) is Ok)),
            old(self).reader().consumed().is_prefix_of(final(self).reader().consumed()),
            final(self).reader().reliable() == old(self).reader().reliable(),
            final(self).reader().setting() == old(self).reader().setting(),
            old(self).reader().reliable() ==> {
                &&& items@ == record_outcomes::<T, R::Error>(
                    old(self).records_left(),
                    old(self).reader().pending(),
                )
                &&& final(self).reader().pending() == pending_after_records::<T, R::Error>(
                    old(self).records_left(),
                    old(self).reader().pending(),
                )
            },
    {
        let ghost start = *self;
        let mut items: Vec<Result<T, ReadError<R::Error>>> = Vec::new();
        while !(self.errored || self.elements_remaining == 0)
            invariant
                self.records_left() * T::SIZE <= self.reader().read_limit(),
                items@.len() + self.records_left() <= start.records_left(),
                forall|i: int| 0 <= i < items@.len() - 1 ==> (#[trigger] items@[i]) is Ok,
                !self.errored() ==> forall|i: int|
                    0 <= i < items@.len() ==> (#[trigger] items@[i]) is Ok,
                !self.errored() ==> items@.len() + self.records_left() == start.records_left(),
                self.errored() && !start.errored() ==> items@.len() > 0 && items@.last() is Err,
                start.errored() ==> items@.len() == 0,
                start.reader().consumed().is_prefix_of(self.reader().consumed()),
                self.reader().reliable() == start.reader().reliable(),
                self.reader().setting() == start.reader().setting(),
                start.reader().reliable() ==> {
                    &&& record_outcomes::<T, R::Error>(
                        start.records_left(),
                        start.reader().pending(),
                    ) == items@ + record_outcomes::<T, R::Error>(
                        self.records_left(),
                        self.reader().pending(),
                    )
                    &&& pending_after_records::<T, R::Error>(
                        start.records_left(),
                        start.reader().pending(),
                    ) == pending_after_records::<T, R::Error>(
                        self.records_left(),
                        self.reader().pending(),
                    )
                },
            decreases self.elements_remaining + (if self.errored {
                0int
            } else {
                1int
            }),
        {
            let ghost before = *self;
            let ghost left: nat = self.records_left();
            assert(T::SIZE <= left * T::SIZE) by (nonlinear_arith)
                requires
                    left >= 1,
            ;
            let item = self.next();
            proof {
                let taken = Self::taken(before.reader(), self.reader());
                assert((left - 1) * T::SIZE == left * T::SIZE - T::SIZE) by (nonlinear_arith);
                assert(before.reader().consumed().is_prefix_of(self.reader().consumed()));
                assert(start.reader().consumed().is_prefix_of(self.reader().consumed())) by {
                    assert(self.reader().consumed().take(start.reader().consumed().len() as int)
                        =~= start.reader().consumed());
                }
            }
            match item {
                Some(x) => {
                    let ghost old_items = items@;
                    items.push(x);
                    proof {
                        if start.reader().reliable() {
                            let p = before.reader().pending();
                            let q = self.reader().pending();
                            let sz = T::SIZE as int;
                            assert(old_items.push(x) =~= old_items + seq![x]);
                            assert(record_outcomes::<T, R::Error>(left, p) == match record_outcome::<
                                T,
                                R::Error,
                            >(p) {
                                Ok(value) => seq![Ok(value)] + record_outcomes::<T, R::Error>(
                                    (left - 1) as nat,
                                    p.skip(sz),
                                ),
                                Err(e) => seq![Err(e)],
                            });
                            if p.len() < sz {
                                assert(q.len() == 0);
                                assert(q =~= Seq::<u8>::empty());
                                assert(pending_after_records::<T, R::Error>(left, p) =~= q);
                            } else {
                                assert(q =~= p.skip(sz));
                            }
                            match record_outcome::<T, R::Error>(p) {
                                Ok(v) => {
                                    assert(self.records_left() == left - 1);
                                    assert(items@ + record_outcomes::<T, R::Error>(
                                        self.records_left(),
                                        q,
                                    ) =~= old_items + record_outcomes::<T, R::Error>(left, p));
                                },
                                Err(e) => {
                                    assert(self.records_left() == 0);
                                    assert(record_outcomes::<T, R::Error>(0, q) =~= Seq::<
                                        Result<T, ReadError<R::Error>>,
                                    >::empty());
                                    assert(items@ =~= old_items + record_outcomes::<T, R::Error>(
                                        left,
                                        p,
                                    ));
                                },
                            }
                        }
                    }
                },
                None => {},
            }
        }
        items
    }
}

} // verus!
