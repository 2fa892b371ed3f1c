use procedural_payloads::fields::{FieldIterator, FrameField};
use procedural_payloads::io::{ByteRead, ReadExactError, SliceReader};

#[derive(Clone, Copy, Debug, PartialEq, Eq)]
struct Metadata {
    random_data: [u8; 8],
}

impl From<[u8; 8]> for Metadata {
    fn from(value: [u8; 8]) -> Self {
        Self { random_data: value }
    }
}

#[derive(PartialEq, Eq, Debug)]
struct Field {
    data: u8,
}

impl FrameField<1> for Field {}

impl From<[u8; 1]> for Field {
    fn from(value: [u8; 1]) -> Self {
        Field { data: value[0] }
    }
}

#[test]
fn payloads_create_payload() {
    let data = [
        1, 2, 3, 4, 5, 6, 7, 8, //
        2, 2, 3, 4, 5, 6, 7, 8, //
        3, 2, 3, 4, 5, 6, 7, 8, //
        4, 2, 3, 4, 5, 6, 7, 8, //
        5, 2, 3, 4, 5, 6, 7, 8, //
        6, 2, 3, 4, 5, 6, 7, 8, //
        7, 2, 3, 4, 5, 6, 7, 8, //
        8, 2, 3, 4, 5, 6, 7, 8, //
    ];
    let metadata_chunk: [u8; 8] = data[0..8].try_into().unwrap();
    let mut reader = SliceReader::new(&data);
    let metadata_bytes: [u8; 8] = reader.read_exact(8).unwrap().try_into().unwrap();
    let metadata = Metadata::from(metadata_bytes);

    assert_eq!(metadata, Metadata::from(metadata_chunk));

    let mut iter = FieldIterator::<1, Field, _>::new(64 - 8, reader);
    let mut i = 0;
    while let Some(field) = iter.next() {
        assert_eq!(Field { data: data[i + 8] }, field.unwrap());
        i += 1;
    }
    assert_eq!(i, 56);
}

#[test]
fn frame_iterator_retries_after_a_failed_read() {
    let data = [5u8];
    let mut iter = FieldIterator::<1, Field, _>::new(2, SliceReader::new(&data));

    assert_eq!(iter.next().unwrap().unwrap(), Field { data: 5 });
    assert!(matches!(
        iter.next(),
        Some(Err(ReadExactError::UnexpectedEof))
    ));
    assert!(matches!(
        iter.next(),
        Some(Err(ReadExactError::UnexpectedEof))
    ));
}

#[test]
fn frame_iterator_stops_after_the_given_count() {
    let data = [1u8, 2, 3];
    let mut iter = FieldIterator::<1, Field, _>::new(2, SliceReader::new(&data));

    assert!(iter.next().is_some());
    assert!(iter.next().is_some());
    assert!(iter.next().is_none());
}
