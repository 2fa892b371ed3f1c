use crc32fast::Hasher;
use procedural_payloads::io::{ByteWrite, SliceWriter};
use procedural_payloads::write::{
    crc_32_writer::{crc_to_be_bytes, Crc32Writer},
    error::WriteError,
    fields::WritableFrameField,
    metadata::{NotWritten, WritableMetadataField, Written},
    payload::WritablePayload,
    writeable::Writeable,
};

#[derive(Clone, Copy, Debug, PartialEq, Eq)]
struct Metadata {
    random_data: [u8; 8],
}

impl Writeable for Metadata {
    fn write_to<W: ByteWrite>(&self, writer: &mut W) -> Result<(), W::Error> {
        writer.write_all(&self.random_data)
    }
}

impl WritableMetadataField for Metadata {
    fn num_fields(&self) -> usize {
        64 - 8
    }
}

#[derive(PartialEq, Eq, Debug)]
struct Field {
    data: u8,
}

impl Writeable for Field {
    fn write_to<W: ByteWrite>(&self, writer: &mut W) -> Result<(), W::Error> {
        writer.write_all(&[self.data])
    }
}

impl WritableFrameField for Field {
    const SIZE: usize = 1;
}

struct EmptyMetadata {
    fields: usize,
}

impl Writeable for EmptyMetadata {
    fn write_to<W: ByteWrite>(&self, writer: &mut W) -> Result<(), W::Error> {
        writer.write_all(&[])
    }
}

impl WritableMetadataField for EmptyMetadata {
    fn num_fields(&self) -> usize {
        self.fields
    }
}

fn begun(
    data: Vec<u8>,
    metadata: Metadata,
) -> WritablePayload<Metadata, Written, Field, SliceWriter> {
    WritablePayload::<Metadata, NotWritten, Field, _>::new(SliceWriter::new(data))
        .begin(metadata)
        .unwrap()
}

#[test]
fn write_create_payload() {
    let data = vec![0; 64];
    let expected_data = [
        0, 0, 0, 0, 0, 0, 0, 0, //
        0, 1, 2, 3, 4, 5, 6, 7, //
        8, 9, 10, 11, 12, 13, 14, 15, //
        16, 17, 18, 19, 20, 21, 22, 23, //
        24, 25, 26, 27, 28, 29, 30, 31, //
        32, 33, 34, 35, 36, 37, 38, 39, //
        40, 41, 42, 43, 44, 45, 46, 47, //
        48, 49, 50, 51, 52, 53, 54, 55, //
    ];
    let metadata = Metadata {
        random_data: [0; 8],
    };
    let mut payload = WritablePayload::<Metadata, NotWritten, Field, _>::new(SliceWriter::new(
        data,
    ))
    .begin(metadata)
    .expect("Failed to begin with metadata");

    for i in 0..56 {
        payload
            .write_field(Field { data: i })
            .expect("Failed to write new field");
    }
    let data = payload.finish().unwrap().into_inner();
    assert_eq!(data, expected_data);
}

#[test]
fn finish_is_ok_when_all_fields_are_written() {
    let metadata = Metadata {
        random_data: [0; 8],
    };

    let mut payload = begun(vec![0; 64], metadata);

    for i in 0..56u8 {
        payload.write_field(Field { data: i }).unwrap();
    }

    payload.finish().unwrap();
}

#[test]
fn finish_errors_when_no_fields_have_been_written() {
    let metadata = Metadata {
        random_data: [0; 8],
    };

    let payload = begun(vec![0; 64], metadata);

    let err = payload.finish().unwrap_err();
    assert!(matches!(err, WriteError::InsufficientDataWritten));
}

#[test]
fn finish_errors_when_some_fields_are_missing() {
    let metadata = Metadata {
        random_data: [0; 8],
    };

    let mut payload = begun(vec![0; 64], metadata);

    for i in 0..10u8 {
        payload.write_field(Field { data: i }).unwrap();
    }

    let err = payload.finish().unwrap_err();
    assert!(matches!(err, WriteError::InsufficientDataWritten));
}

#[test]
fn write_field_errors_after_all_fields_are_written() {
    let metadata = Metadata {
        random_data: [0; 8],
    };

    let mut payload = begun(vec![0; 64], metadata);

    for i in 0..56u8 {
        payload.write_field(Field { data: i }).unwrap();
    }

    let err = payload.write_field(Field { data: 56 }).unwrap_err();

    assert!(matches!(err, WriteError::ExcessData));
}

#[test]
fn begin_writes_metadata_before_any_fields() {
    let mut payload = begun(
        vec![0; 64],
        Metadata {
            random_data: [9; 8],
        },
    );
    assert_eq!(payload.fields_remaining(), 56);

    // Fields of value zero leave the rest of the buffer as it was.
    for _ in 0..56 {
        payload.write_field(Field { data: 0 }).unwrap();
    }
    let data = payload.finish().unwrap().into_inner();
    assert_eq!(&data[..8], &[9; 8]);
    assert_eq!(&data[8..], &[0; 56]);
}

#[test]
fn metadata_and_fields_are_written_in_order() {
    let metadata = Metadata {
        random_data: [0xAB; 8],
    };

    let mut payload = begun(vec![0; 64], metadata);

    for i in 0..56u8 {
        payload.write_field(Field { data: i }).unwrap();
    }

    let data = payload.finish().unwrap().into_inner();

    assert_eq!(&data[..8], &[0xAB; 8]);
    for (i, byte) in data[8..].iter().enumerate() {
        assert_eq!(*byte, i as u8);
    }
}

#[test]
fn begin_rejects_exactly_65536_planned_field_bytes() {
    let result = WritablePayload::<EmptyMetadata, NotWritten, Field, _>::new(SliceWriter::new(
        Vec::new(),
    ))
    .begin(EmptyMetadata { fields: 65536 });

    assert!(matches!(result, Err(WriteError::TooMuchPlannedData)));
}

#[test]
fn begin_accepts_65535_planned_field_bytes() {
    let result = WritablePayload::<EmptyMetadata, NotWritten, Field, _>::new(SliceWriter::new(
        Vec::new(),
    ))
    .begin(EmptyMetadata { fields: 65535 });

    assert!(result.is_ok());
}

#[test]
fn writer_forwards_data_unchanged() {
    let metadata = Metadata {
        random_data: [0; 8],
    };
    let writer = Crc32Writer::new(SliceWriter::new(vec![0; 64]), Hasher::new());

    let mut payload = WritablePayload::<Metadata, NotWritten, Field, _>::new(writer)
        .begin(metadata)
        .unwrap();

    for i in 0..56u8 {
        payload.write_field(Field { data: i }).unwrap();
    }
    let writer = payload.finish().unwrap();
    let (hasher, inner) = writer.into_inner();
    let data = inner.into_inner();

    assert_eq!(hasher.finalize(), crc32fast::hash(&data));
}

#[test]
fn writer_crc_matches_known_vector() {
    let mut writer = Crc32Writer::new(SliceWriter::new(vec![0; 9]), Hasher::new());

    writer.write_all(b"123456789").unwrap();

    assert_eq!(writer.finish(), 0xCBF43926);
}

#[test]
fn writer_crc_matches_chunked_writes() {
    let mut writer = Crc32Writer::new(SliceWriter::new(vec![0; 9]), Hasher::new());

    for chunk in b"123456789".chunks(3) {
        let written = writer.write(chunk).unwrap();
        assert_eq!(written, chunk.len());
    }

    assert_eq!(writer.finish(), crc32fast::hash(b"123456789"));
}

#[test]
fn writer_forwards_bytes_unchanged() {
    let mut writer = Crc32Writer::new(SliceWriter::new(vec![0; 9]), Hasher::new());

    writer.write_all(b"123456789").unwrap();

    let (_, inner) = writer.into_inner();
    assert_eq!(inner.into_inner(), b"123456789".to_vec());
}

#[test]
fn writer_short_write_crc_covers_only_written_bytes() {
    let mut writer = Crc32Writer::new(SliceWriter::new(vec![0; 2]), Hasher::new());

    let written = writer.write(&[1, 2, 3, 4, 5]).unwrap();
    assert_eq!(written, 2);

    assert_eq!(writer.finish(), crc32fast::hash(&[1, 2]));
}

// --- further cases --- //

#[test]
fn begin_rejects_planned_sizes_that_overflow() {
    let result = WritablePayload::<EmptyMetadata, NotWritten, [u8; 2], _>::new(
        SliceWriter::new(Vec::new()),
    )
    .begin(EmptyMetadata { fields: usize::MAX });

    assert!(matches!(result, Err(WriteError::TooMuchPlannedData)));
}

#[test]
fn planned_size_counts_field_size() {
    let rejected = WritablePayload::<EmptyMetadata, NotWritten, [u8; 4], _>::new(
        SliceWriter::new(Vec::new()),
    )
    .begin(EmptyMetadata { fields: 16384 });
    assert!(matches!(rejected, Err(WriteError::TooMuchPlannedData)));

    let accepted = WritablePayload::<EmptyMetadata, NotWritten, [u8; 4], _>::new(
        SliceWriter::new(Vec::new()),
    )
    .begin(EmptyMetadata { fields: 16383 });
    assert_eq!(accepted.unwrap().fields_remaining(), 16383);
}

#[test]
fn begin_fails_when_the_stream_is_full() {
    let result = WritablePayload::<Metadata, NotWritten, Field, _>::new(SliceWriter::new(vec![
        0;
        4
    ]))
    .begin(Metadata {
        random_data: [1; 8],
    });

    assert!(matches!(result, Err(WriteError::Other(_))));
}

#[test]
fn write_field_fails_when_the_stream_is_full() {
    let mut payload = begun(
        vec![0; 9],
        Metadata {
            random_data: [1; 8],
        },
    );

    payload.write_field(Field { data: 1 }).unwrap();
    assert_eq!(payload.fields_remaining(), 55);
    assert!(matches!(
        payload.write_field(Field { data: 2 }),
        Err(WriteError::Other(_))
    ));
    assert_eq!(payload.fields_remaining(), 54);
}

#[test]
fn fields_remaining_counts_down() {
    let mut payload = begun(
        vec![0; 64],
        Metadata {
            random_data: [1; 8],
        },
    );
    assert_eq!(payload.fields_remaining(), 56);
    payload.write_field(Field { data: 1 }).unwrap();
    payload.write_field(Field { data: 2 }).unwrap();
    assert_eq!(payload.fields_remaining(), 54);
}

#[test]
fn slice_writer_writes_short_then_reports_full() {
    let mut writer = SliceWriter::new(vec![7; 3]);

    assert_eq!(writer.write(&[1, 2]).unwrap(), 2);
    assert_eq!(writer.room(), 1);
    assert_eq!(writer.write(&[3, 4]).unwrap(), 1);
    assert!(writer.write(&[5]).is_err());
    assert_eq!(writer.write(&[]).unwrap(), 0);
    assert_eq!(writer.into_inner(), vec![1, 2, 3]);
}

#[test]
fn slice_writer_keeps_the_unwritten_rest() {
    let mut writer = SliceWriter::new(vec![7; 4]);
    writer.write_all(&[1]).unwrap();
    assert_eq!(writer.into_inner(), vec![1, 7, 7, 7]);
}

#[test]
fn write_finish_appends_the_checksum_big_endian() {
    let mut writer = Crc32Writer::new(SliceWriter::new(vec![0; 13]), Hasher::new());
    writer.write_all(b"123456789").unwrap();
    writer.write_finish().unwrap();

    assert_eq!(crc_to_be_bytes(0xCBF43926), [0xCB, 0xF4, 0x39, 0x26]);
    let (hasher, inner) = writer.into_inner();
    assert_eq!(hasher.finalize(), 0xCBF43926);
    let mut expected = b"123456789".to_vec();
    expected.extend_from_slice(&[0xCB, 0xF4, 0x39, 0x26]);
    assert_eq!(inner.into_inner(), expected);
}

#[test]
fn write_finish_leaves_the_checksum_unhashed() {
    let mut writer = Crc32Writer::new(SliceWriter::new(vec![0; 8]), Hasher::new());
    writer.write_all(b"1234").unwrap();
    writer.write_finish().unwrap();
    writer.write_all(b"5678").unwrap_err();
    assert_eq!(writer.finish(), crc32fast::hash(b"1234"));
}

#[test]
fn new_hasher_starts_from_zero() {
    let hasher = procedural_payloads::checksum::new_hasher();
    assert_eq!(hasher.clone().finalize(), 0);
    let writer = Crc32Writer::new(SliceWriter::new(vec![0; 4]), hasher);
    assert_eq!(writer.finish(), 0);
}

#[test]
fn write_finish_fails_without_room() {
    let mut writer = Crc32Writer::new(SliceWriter::new(vec![0; 9]), Hasher::new());
    writer.write_all(b"123456789").unwrap();
    assert!(writer.write_finish().is_err());
    let (_, inner) = writer.into_inner();
    assert_eq!(inner.into_inner(), b"123456789".to_vec());
}

#[test]
fn writer_crc_continues_from_the_given_hasher() {
    let mut hasher = Hasher::new();
    hasher.update(b"12345");
    let mut writer = Crc32Writer::new(SliceWriter::new(vec![0; 4]), hasher);
    writer.write_all(b"6789").unwrap();
    writer.flush().unwrap();

    assert_eq!(writer.finish(), 0xCBF43926);
}

#[test]
fn write_error_from_wraps_the_stream_error() {
    let err: WriteError<u8> = WriteError::from(5u8);
    assert!(matches!(err, WriteError::Other(5)));
}

#[test]
fn hash_room_counts_down_from_the_hasher_byte_count() {
    let mut hasher = Hasher::new();
    hasher.update(b"12345");
    let mut writer = Crc32Writer::new(SliceWriter::new(vec![0; 4]), hasher);
    assert_eq!(writer.hash_room(), u64::MAX - 5);
    writer.write_all(b"678").unwrap();
    assert_eq!(writer.hash_room(), u64::MAX - 8);
}
