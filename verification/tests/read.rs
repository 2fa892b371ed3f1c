use crc32fast::Hasher;
use procedural_payloads::io::{ByteRead, ReadExactError, SliceReader};
use procedural_payloads::read::crc_32_reader::Crc32Reader;
use procedural_payloads::read::error::ReadError;
use procedural_payloads::read::fields::FieldIterator;
use procedural_payloads::read::metadata::{Cached, ReadableMetadataField, UnCached};
use procedural_payloads::read::payload::ReadablePayload;
use procedural_payloads::read::readable::{ConversionError, Readable};

#[derive(PartialEq, Eq, Debug, Clone, Copy)]
struct Metadata {
    random_data: [u8; 8],
}

impl Readable for Metadata {
    const SIZE: usize = 8;

    fn read(data: &[u8]) -> Result<Self, ConversionError> {
        let random_data: [u8; 8] = data.try_into().map_err(|_| ConversionError)?;
        Ok(Metadata { random_data })
    }
}

impl ReadableMetadataField for Metadata {
    fn num_fields(&self) -> usize {
        64 - 8
    }
}

#[derive(PartialEq, Eq, Debug, Clone, Copy)]
struct Field {
    data: u8,
}

impl Readable for Field {
    const SIZE: usize = 1;

    fn read(data: &[u8]) -> Result<Self, ConversionError> {
        match data {
            [b] => Ok(Field { data: *b }),
            _ => Err(ConversionError),
        }
    }
}

/// A field that only accepts even bytes.
#[derive(PartialEq, Eq, Debug, Clone, Copy)]
struct EvenField {
    data: u8,
}

impl Readable for EvenField {
    const SIZE: usize = 1;

    fn read(data: &[u8]) -> Result<Self, ConversionError> {
        match data {
            [b] if b % 2 == 0 => Ok(EvenField { data: *b }),
            _ => Err(ConversionError),
        }
    }
}

#[test]
fn read_create_payload() {
    let data = [
        1, 2, 3, 4, 5, 6, 7, 8, //
        2, 2, 3, 4, 5, 6, 7, 8, //
        3, 2, 3, 4, 5, 6, 7, 8, //
        4, 2, 3, 4, 5, 6, 7, 8, //
        5, 2, 3, 4, 5, 6, 7, 8, //
        6, 2, 3, 4, 5, 6, 7, 8, //
        7, 2, 3, 4, 5, 6, 7, 8, //
        8, 2, 3, 4, 5, 6, 7, 8, //
    ];
    let metadata_chunk: [u8; 8] = data[0..8].try_into().unwrap();

    let payload = ReadablePayload::<UnCached, Field, _>::new(SliceReader::new(&data))
        .load::<Metadata>()
        .unwrap();
    let metadata: Metadata = *payload.metadata();

    assert_eq!(metadata, Metadata::read(&metadata_chunk).unwrap());

    let mut iter = payload.into_iter();
    let mut i = 0;
    while let Some(field) = iter.next() {
        assert_eq!(Field { data: data[i + 8] }, field.unwrap());
        i += 1;
    }
}

#[test]
fn load_fails_when_metadata_is_short() {
    let short = [0u8; 7];

    let payload = ReadablePayload::<UnCached, Field, _>::new(SliceReader::new(&short));

    assert!(payload.load::<Metadata>().is_err());
}

#[test]
fn iterator_reports_read_error_when_fields_are_missing() {
    let data = [0u8; 10];

    let payload = ReadablePayload::<UnCached, Field, _>::new(SliceReader::new(&data));
    let payload = payload.load::<Metadata>().unwrap();

    let mut iter = payload.into_iter();

    assert!(matches!(iter.next(), Some(Ok(_))));
    assert!(matches!(iter.next(), Some(Ok(_))));
    assert!(matches!(iter.next(), Some(Err(_))));
}

#[test]
fn iterator_returns_exactly_metadata_field_count() {
    let data = [1u8; 64];

    let payload = ReadablePayload::new(SliceReader::new(&data));
    let payload: ReadablePayload<Cached<Metadata>, Field, SliceReader> =
        payload.load::<Metadata>().unwrap();

    let mut count = 0;
    let mut iter = payload.into_iter();
    while let Some(field) = iter.next() {
        field.unwrap();
        count += 1;
    }

    assert_eq!(count, 56);
}

#[test]
fn create_payload_from_existing_metadata() {
    let mut field_data = [0u8; 56];
    for (i, byte) in field_data.iter_mut().enumerate() {
        *byte = i as u8;
    }

    let metadata = Metadata::read(&[7; 8]).unwrap();
    let payload = ReadablePayload::<Cached<Metadata>, Field, _>::from_metadata(
        SliceReader::new(&field_data),
        metadata,
    );

    assert_eq!(*payload.metadata(), Metadata::read(&[7; 8]).unwrap());

    let mut iter = payload.into_iter();
    let mut i = 0;
    while let Some(field) = iter.next() {
        assert_eq!(field.unwrap(), Field { data: i as u8 });
        i += 1;
    }
    assert_eq!(i, 56);
}

#[test]
fn field_iterator_returns_none_when_no_fields_remain() {
    let data: [u8; 0] = [];
    let mut iter = FieldIterator::<Field, _>::new(0, SliceReader::new(&data));

    assert!(iter.next().is_none());
}

#[test]
fn field_iterator_reads_each_field() {
    let data = [1u8, 2u8];

    let mut iter = FieldIterator::<Field, _>::new(2, SliceReader::new(&data));

    assert_eq!(iter.next().unwrap().unwrap(), Field { data: 1 });
    assert_eq!(iter.next().unwrap().unwrap(), Field { data: 2 });
    assert!(iter.next().is_none());
}

#[test]
fn reader_forwards_reads_unchanged() {
    let source = b"hello world";
    let mut reader = Crc32Reader::new(SliceReader::new(source), Hasher::new());

    let out = reader.read_exact(11).unwrap();

    assert_eq!(&out[..], source);
}

#[test]
fn reader_crc_matches_known_vector() {
    let source = *b"123456789";
    let mut reader = Crc32Reader::new(SliceReader::new(&source), Hasher::new());

    let out = reader.read_exact(9).unwrap();
    assert_eq!(out.len(), 9);

    assert_eq!(reader.finish(), 0xCBF43926);
}

#[test]
fn reader_short_read_crc_covers_only_read_bytes() {
    let source = [1, 2, 3, 4];
    let mut reader = Crc32Reader::new(SliceReader::new(&source), Hasher::new());

    let read = reader.read(8).unwrap();

    assert_eq!(read.len(), 4);
    assert_eq!(reader.finish(), crc32fast::hash(&source));
}

#[test]
fn reader_eof_does_not_affect_crc() {
    let source = b"123456789";
    let mut reader = Crc32Reader::new(SliceReader::new(source), Hasher::new());

    reader.read_exact(9).unwrap();

    assert_eq!(reader.read(1).unwrap().len(), 0);

    assert_eq!(reader.finish(), crc32fast::hash(source));
}

#[test]
fn field_iterator_finish_errors_when_fields_remain() {
    let data = [1u8, 2u8];

    let mut iter = FieldIterator::<Field, _>::new(3, SliceReader::new(&data));

    assert!(iter.next().is_some());
    assert!(iter.next().is_some());
    assert!(matches!(iter.next(), Some(Err(_))));

    assert!(matches!(iter.finish(), Err(ReadError::InsufficientData)));
}

#[test]
fn field_iterator_finish_returns_reader_when_exhausted() {
    let data = [1u8, 2u8];

    let mut iter = FieldIterator::<Field, _>::new(2, SliceReader::new(&data));
    iter.next().unwrap().unwrap();
    iter.next().unwrap().unwrap();

    assert!(iter.finish().is_ok());
}

// --- further cases --- //

#[test]
fn load_reports_unexpected_eof_for_short_metadata() {
    let short = [0u8; 7];
    let payload = ReadablePayload::<UnCached, Field, _>::new(SliceReader::new(&short));

    assert!(matches!(
        payload.load::<Metadata>(),
        Err(ReadError::ReadExact(ReadExactError::UnexpectedEof))
    ));
}

#[test]
fn load_reports_invalid_cast_for_rejected_metadata() {
    let data = [3u8; 4];
    let payload = ReadablePayload::<UnCached, Field, _>::new(SliceReader::new(&data));

    assert!(matches!(
        payload.load::<EvenField>(),
        Err(ReadError::InvalidCast)
    ));
}

impl ReadableMetadataField for EvenField {
    fn num_fields(&self) -> usize {
        self.data as usize
    }
}

#[test]
fn iterator_stops_for_good_after_invalid_cast() {
    let data = [2u8, 3u8, 4u8, 6u8];
    let mut iter = FieldIterator::<EvenField, _>::new(4, SliceReader::new(&data));

    assert_eq!(iter.next().unwrap().unwrap(), EvenField { data: 2 });
    assert!(matches!(iter.next(), Some(Err(ReadError::InvalidCast))));
    assert!(iter.next().is_none());
    assert!(iter.next().is_none());
    assert!(matches!(iter.finish(), Err(ReadError::InsufficientData)));
}

#[test]
fn iterator_stops_for_good_after_read_error() {
    let data = [1u8];
    let mut iter = FieldIterator::<Field, _>::new(3, SliceReader::new(&data));

    assert_eq!(iter.next().unwrap().unwrap(), Field { data: 1 });
    assert!(matches!(
        iter.next(),
        Some(Err(ReadError::ReadExact(ReadExactError::UnexpectedEof)))
    ));
    assert!(iter.next().is_none());
}

#[test]
fn metadata_announces_the_field_count() {
    let data = [4u8, 10, 20, 30, 40, 50];
    let payload = ReadablePayload::<UnCached, u8, _>::new(SliceReader::new(&data))
        .load::<EvenField>()
        .unwrap();
    assert_eq!(payload.metadata().data, 4);

    let mut iter = payload.into_iter();
    let mut fields = Vec::new();
    while let Some(field) = iter.next() {
        fields.push(field.unwrap());
    }
    assert_eq!(fields, vec![10, 20, 30, 40]);

    let mut reader = iter.finish().unwrap();
    assert_eq!(reader.remaining_len(), 1);
    assert_eq!(reader.read_exact(1).unwrap(), vec![50]);
}

#[test]
fn byte_array_records_read_as_their_bytes() {
    let data = [9u8, 8, 7, 6, 5];
    let mut iter = FieldIterator::<[u8; 2], _>::new(2, SliceReader::new(&data));

    assert_eq!(iter.next().unwrap().unwrap(), [9, 8]);
    assert_eq!(iter.next().unwrap().unwrap(), [7, 6]);
    assert!(iter.next().is_none());
    assert_eq!(<[u8; 3] as Readable>::read(&[1, 2]), Err(ConversionError));
    assert_eq!(<u8 as Readable>::read(&[1, 2]), Err(ConversionError));
}

#[test]
fn slice_reader_reads_short_at_the_end() {
    let data = [1u8, 2, 3];
    let mut reader = SliceReader::new(&data);

    assert_eq!(reader.read(2).unwrap(), vec![1, 2]);
    assert_eq!(reader.read(5).unwrap(), vec![3]);
    assert_eq!(reader.read(5).unwrap(), Vec::<u8>::new());
    assert!(matches!(
        reader.read_exact(1),
        Err(ReadExactError::UnexpectedEof)
    ));
}

#[test]
fn reader_crc_continues_from_the_given_hasher() {
    let mut hasher = Hasher::new();
    hasher.update(b"1234");
    let mut reader = Crc32Reader::new(SliceReader::new(b"56789"), hasher);

    reader.read_exact(5).unwrap();
    let (hasher, inner) = reader.into_inner();

    assert_eq!(hasher.finalize(), 0xCBF43926);
    assert_eq!(inner.remaining_len(), 0);
}

#[test]
fn bool_records_refuse_bytes_other_than_zero_and_one() {
    let data = [1u8, 0, 2, 1];
    let mut it = FieldIterator::<bool, _>::new(4, SliceReader::new(&data));
    assert!(matches!(it.next(), Some(Ok(true))));
    assert!(matches!(it.next(), Some(Ok(false))));
    assert!(matches!(it.next(), Some(Err(ReadError::InvalidCast))));
    assert!(it.next().is_none());
}

#[test]
fn reader_hash_room_counts_down() {
    let data = [1u8, 2, 3];
    let mut reader = Crc32Reader::new(SliceReader::new(&data), Hasher::new());
    assert_eq!(reader.hash_room(), u64::MAX);
    reader.read_exact(2).unwrap();
    assert_eq!(reader.hash_room(), u64::MAX - 2);
}

#[test]
fn collect_items_reads_every_announced_record() {
    let data = [1u8; 64];
    let payload = ReadablePayload::new(SliceReader::new(&data));
    let payload: ReadablePayload<Cached<Metadata>, Field, SliceReader> =
        payload.load::<Metadata>().unwrap();
    let mut iter = payload.into_iter();
    let items = iter.collect_items();
    assert_eq!(items.len(), 56);
    assert!(items.iter().all(|item| matches!(item, Ok(Field { data: 1 }))));
    assert!(iter.next().is_none());
    let reader = iter.finish().unwrap();
    assert_eq!(reader.remaining_len(), 0);
}

#[test]
fn collect_items_stops_after_the_first_failure() {
    let data = [1u8, 0, 2, 1];
    let mut iter = FieldIterator::<bool, _>::new(4, SliceReader::new(&data));
    let items = iter.collect_items();
    assert_eq!(items.len(), 3);
    assert!(matches!(items[0], Ok(true)));
    assert!(matches!(items[1], Ok(false)));
    assert!(matches!(items[2], Err(ReadError::InvalidCast)));
    assert!(matches!(iter.finish(), Err(ReadError::InsufficientData)));
}

#[test]
fn collect_items_reports_a_short_stream_once() {
    let data = [5u8, 6];
    let mut iter = FieldIterator::<Field, _>::new(3, SliceReader::new(&data));
    let items = iter.collect_items();
    assert_eq!(items.len(), 3);
    assert!(matches!(items[2], Err(ReadError::ReadExact(ReadExactError::UnexpectedEof))));
    assert!(iter.next().is_none());
}
