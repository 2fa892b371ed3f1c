use crc32fast::Hasher;
use procedural_payloads::io::{ByteRead, ByteWrite, SliceReader, SliceWriter};
use procedural_payloads::read::{
    crc_32_reader::Crc32Reader,
    metadata::{ReadableMetadataField, UnCached},
    payload::ReadablePayload,
    readable::{ConversionError, Readable},
};
use procedural_payloads::write::{
    crc_32_writer::Crc32Writer,
    fields::WritableFrameField,
    metadata::{NotWritten, WritableMetadataField},
    payload::WritablePayload,
    writeable::Writeable,
};

#[derive(PartialEq, Eq, Debug, Clone, Copy)]
struct Metadata {
    random_data: [u8; 8],
}

impl Readable for Metadata {
    const SIZE: usize = 8;

    fn read(data: &[u8]) -> Result<Self, ConversionError> {
        let random_data: [u8; 8] = data.try_into().map_err(|_| ConversionError)?;
        Ok(Metadata { random_data })
    }
}

impl ReadableMetadataField for Metadata {
    fn num_fields(&self) -> usize {
        64 - 8
    }
}

impl Writeable for Metadata {
    fn write_to<W: ByteWrite>(&self, writer: &mut W) -> Result<(), W::Error> {
        writer.write_all(&self.random_data)
    }
}

impl WritableMetadataField for Metadata {
    fn num_fields(&self) -> usize {
        64 - 8
    }
}

#[derive(PartialEq, Eq, Debug, Clone, Copy)]
struct Field {
    data: u8,
}

impl Readable for Field {
    const SIZE: usize = 1;

    fn read(data: &[u8]) -> Result<Self, ConversionError> {
        match data {
            [b] => Ok(Field { data: *b }),
            _ => Err(ConversionError),
        }
    }
}

impl Writeable for Field {
    fn write_to<W: ByteWrite>(&self, writer: &mut W) -> Result<(), W::Error> {
        writer.write_all(&[self.data])
    }
}

impl WritableFrameField for Field {
    const SIZE: usize = 1;
}

#[test]
fn write_then_read_roundtrip() {
    let metadata = Metadata {
        random_data: [3; 8],
    };

    let mut writer =
        WritablePayload::<Metadata, NotWritten, Field, _>::new(SliceWriter::new(vec![0; 64]))
            .begin(metadata)
            .unwrap();

    for i in 0..56u8 {
        writer.write_field(Field { data: i }).unwrap();
    }

    let data = writer.finish().unwrap().into_inner();

    let reader = ReadablePayload::<UnCached, Field, _>::new(SliceReader::new(&data));
    let reader = reader.load::<Metadata>().unwrap();

    assert_eq!(*reader.metadata(), metadata);

    let mut iter = reader.into_iter();
    let mut i = 0;
    while let Some(field) = iter.next() {
        assert_eq!(field.unwrap(), Field { data: i as u8 });
        i += 1;
    }
    assert_eq!(i, 56);
}

#[test]
fn write_then_read_roundtrip_with_crc() {
    let metadata = Metadata {
        random_data: [3; 8],
    };

    let hasher = Crc32Writer::new(SliceWriter::new(vec![0; 64]), Hasher::new());

    let mut writer = WritablePayload::<Metadata, NotWritten, Field, _>::new(hasher)
        .begin(metadata)
        .unwrap();

    for i in 0..56u8 {
        writer.write_field(Field { data: i }).unwrap();
    }

    let hasher = writer.finish().unwrap();
    let (written_hasher, inner) = hasher.into_inner();
    let written_crc = written_hasher.finalize();
    let data = inner.into_inner();
    assert_eq!(written_crc, crc32fast::hash(&data));

    let hasher = Crc32Reader::new(SliceReader::new(&data), Hasher::new());

    let reader = ReadablePayload::<UnCached, Field, _>::new(hasher);
    let reader = reader.load::<Metadata>().unwrap();

    assert_eq!(*reader.metadata(), metadata);

    let mut iter = reader.into_iter();
    let mut i = 0;
    while let Some(field) = iter.next() {
        assert_eq!(field.unwrap(), Field { data: i as u8 });
        i += 1;
    }
    let hasher = iter.finish().unwrap();
    let read_crc = hasher.finish();
    assert_eq!(written_crc, read_crc);
}

#[test]
fn write_then_read_crcs_match_known_vector() {
    let mut writer = Crc32Writer::new(SliceWriter::new(vec![0u8; 9]), Hasher::new());

    writer.write_all(b"123456789").unwrap();
    let (hasher, inner) = writer.into_inner();
    let written_crc = hasher.finalize();
    assert_eq!(written_crc, 0xCBF43926);
    let data = inner.into_inner();

    let mut reader = Crc32Reader::new(SliceReader::new(&data), Hasher::new());

    let out = reader.read_exact(9).unwrap();
    assert_eq!(out, b"123456789".to_vec());
    let read_crc = reader.finish();
    assert_eq!(read_crc, 0xCBF43926);
    assert_eq!(written_crc, read_crc);
}

// --- further cases --- //

#[test]
fn byte_records_round_trip() {
    let metadata: [u8; 3] = [0, 0, 4];

    struct Announced([u8; 3]);

    impl Writeable for Announced {
        fn write_to<W: ByteWrite>(&self, writer: &mut W) -> Result<(), W::Error> {
            self.0.write_to(writer)
        }
    }

    impl WritableMetadataField for Announced {
        fn num_fields(&self) -> usize {
            self.0[2] as usize
        }
    }

    impl Readable for Announced {
        const SIZE: usize = 3;

        fn read(data: &[u8]) -> Result<Self, ConversionError> {
            <[u8; 3] as Readable>::read(data).map(Announced)
        }
    }

    impl ReadableMetadataField for Announced {
        fn num_fields(&self) -> usize {
            self.0[2] as usize
        }
    }

    let fields: [[u8; 2]; 4] = [[1, 2], [3, 4], [5, 6], [7, 8]];
    let mut payload =
        WritablePayload::<Announced, NotWritten, [u8; 2], _>::new(SliceWriter::new(vec![0; 11]))
            .begin(Announced(metadata))
            .unwrap();
    for field in fields {
        payload.write_field(field).unwrap();
    }
    let data = payload.finish().unwrap().into_inner();
    assert_eq!(data, vec![0, 0, 4, 1, 2, 3, 4, 5, 6, 7, 8]);

    let payload = ReadablePayload::<UnCached, [u8; 2], _>::new(SliceReader::new(&data))
        .load::<Announced>()
        .unwrap();
    assert_eq!(payload.metadata().0, metadata);
    let mut iter = payload.into_iter();
    let mut read = Vec::new();
    while let Some(field) = iter.next() {
        read.push(field.unwrap());
    }
    assert_eq!(read, fields.to_vec());
    assert!(iter.finish().is_ok());
}

#[test]
fn single_byte_records_round_trip() {
    let mut writer = SliceWriter::new(vec![0; 3]);
    for byte in [10u8, 20, 30] {
        byte.write_to(&mut writer).unwrap();
    }
    let data = writer.into_inner();
    let mut reader = SliceReader::new(&data);
    for byte in [10u8, 20, 30] {
        let bytes = reader.read_exact(1).unwrap();
        assert_eq!(<u8 as Readable>::read(&bytes), Ok(byte));
    }
}

#[test]
fn bool_records_round_trip() {
    let mut writer = SliceWriter::new(vec![7; 3]);
    for flag in [true, false, true] {
        flag.write_to(&mut writer).unwrap();
    }
    let data = writer.into_inner();
    assert_eq!(data, vec![1, 0, 1]);
    let mut reader = SliceReader::new(&data);
    for flag in [true, false, true] {
        let bytes = reader.read_exact(1).unwrap();
        assert_eq!(<bool as Readable>::read(&bytes), Ok(flag));
    }
}
