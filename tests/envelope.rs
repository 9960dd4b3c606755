use mononoke_core::envelope::{
    EnvelopeDefect, ErrorKind, HashField, HgEnvelopeBlob, HgManifestEnvelope,
    HgManifestEnvelopeMut, ManifestEnvelopeRecord,
};
use mononoke_core::hash::HgNodeHash;

fn hash_of(b: u8) -> HgNodeHash {
    HgNodeHash::from_bytes(&[b; 20]).unwrap()
}

fn sample() -> HgManifestEnvelope {
    HgManifestEnvelopeMut {
        node_id: hash_of(1),
        p1: Some(hash_of(2)),
        p2: None,
        computed_node_id: hash_of(3),
        contents: b"file\0abc\n".to_vec(),
    }
    .freeze()
}

#[test]
fn bad_thrift() {
    let mut record = ManifestEnvelopeRecord {
        node_id: vec![1; 20],
        p1: Some(vec![2; 20]),
        p2: None,
        computed_node_id: vec![1; 20],
        // contents must be present
        contents: None,
    };

    let err = HgManifestEnvelope::from_record(record.clone())
        .expect_err("unexpected OK -- missing contents");
    assert_eq!(err, ErrorKind::InvalidEnvelope(EnvelopeDefect::MissingContents));

    record.contents = Some(b"abc".to_vec());
    record.node_id = vec![1; 19];

    let err = HgManifestEnvelope::from_record(record).expect_err("unexpected OK -- wrong hash length");
    assert_eq!(
        err,
        ErrorKind::InvalidEnvelope(EnvelopeDefect::WrongHashLength(HashField::NodeId))
    );
}

#[test]
fn record_roundtrip() {
    let e = sample();
    let record = e.clone().into_record();
    let e2 = HgManifestEnvelope::from_record(record).expect("record roundtrips should always be valid");
    assert_eq!(e2.node_id(), e.node_id());
    assert_eq!(e2.parents(), e.parents());
    assert_eq!(e2.computed_node_id(), e.computed_node_id());
    assert_eq!(e2.contents(), e.contents());
}

#[test]
fn blob_roundtrip() {
    let e = sample();
    let blob = e.clone().into_blob();
    let e2 = HgManifestEnvelope::from_blob(blob).expect("blob roundtrips should always be valid");
    assert_eq!(e2.node_id(), &hash_of(1));
    assert_eq!(e2.parents(), (Some(&hash_of(2)), None));
    assert_eq!(e2.computed_node_id(), &hash_of(3));
    assert_eq!(e2.contents(), &b"file\0abc\n".to_vec());
    let m = e2.into_mut();
    assert_eq!(m.contents, b"file\0abc\n".to_vec());
}

#[test]
fn blob_layout() {
    let e = HgManifestEnvelopeMut {
        node_id: hash_of(7),
        p1: None,
        p2: None,
        computed_node_id: hash_of(8),
        contents: b"ab".to_vec(),
    }
    .freeze();
    let blob = e.into_blob();
    let mut expected = vec![0, 0, 0, 0, 0, 0, 0, 20];
    expected.extend_from_slice(&[7; 20]);
    expected.push(0);
    expected.push(0);
    expected.extend_from_slice(&[0, 0, 0, 0, 0, 0, 0, 20]);
    expected.extend_from_slice(&[8; 20]);
    expected.push(1);
    expected.extend_from_slice(&[0, 0, 0, 0, 0, 0, 0, 2]);
    expected.extend_from_slice(b"ab");
    assert_eq!(blob, HgEnvelopeBlob(expected));
}

#[test]
fn truncated_blob_is_rejected() {
    let mut bytes = sample().into_blob().0;
    bytes.pop();
    assert_eq!(
        HgManifestEnvelope::from_blob(HgEnvelopeBlob(bytes)).unwrap_err(),
        ErrorKind::BlobDeserializeError
    );
}

#[test]
fn trailing_bytes_are_rejected() {
    let mut bytes = sample().into_blob().0;
    bytes.push(0);
    assert_eq!(
        HgManifestEnvelope::from_blob(HgEnvelopeBlob(bytes)).unwrap_err(),
        ErrorKind::BlobDeserializeError
    );
}

#[test]
fn missing_contents_in_blob() {
    let record = ManifestEnvelopeRecord {
        node_id: vec![1; 20],
        p1: None,
        p2: Some(vec![2; 20]),
        computed_node_id: vec![1; 20],
        contents: None,
    };
    let bytes = mononoke_core::envelope::serialize_record(&record);
    assert_eq!(
        HgManifestEnvelope::from_blob(HgEnvelopeBlob(bytes.clone())).unwrap_err(),
        ErrorKind::InvalidEnvelope(EnvelopeDefect::MissingContents)
    );
    assert_eq!(mononoke_core::envelope::deserialize_record(&bytes), Some(record));
}

#[test]
fn wrong_parent_length_in_record() {
    let record = ManifestEnvelopeRecord {
        node_id: vec![1; 20],
        p1: None,
        p2: Some(vec![2; 21]),
        computed_node_id: vec![1; 20],
        contents: Some(vec![]),
    };
    assert_eq!(
        HgManifestEnvelope::from_record(record).unwrap_err(),
        ErrorKind::InvalidEnvelope(EnvelopeDefect::WrongHashLength(HashField::P2))
    );
}
