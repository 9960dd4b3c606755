use mononoke_core::changegroup::{
    convert_to_revlog_changesets, ChangesetDeltaed, HgBlobNode, Part, Section,
};
use mononoke_core::delta::Delta;
use mononoke_core::hash::HgNodeHash;
use mononoke_core::parts::{
    changegroup_part, decimal_u64, listkey_part, replychangegroup_part, replypushkey_part,
    treepack_part, ChangegroupApplyResult, DataEntry, HistoryEntry, PartData, PartHeaderType,
    PartParam, TreepackPartInput, WirepackPart,
};
use mononoke_core::path::{MPath, MPathElement, RepoPath};

fn h(b: u8) -> HgNodeHash {
    HgNodeHash::from_bytes(&[b; 20]).unwrap()
}

#[test]
fn status_codes() {
    assert_eq!(ChangegroupApplyResult::Success { heads_num_diff: 2 }.to_status_text(), b"3".to_vec());
    assert_eq!(ChangegroupApplyResult::Success { heads_num_diff: -1 }.to_status_text(), b"-2".to_vec());
    assert_eq!(ChangegroupApplyResult::Success { heads_num_diff: 0 }.to_status_text(), b"1".to_vec());
    assert_eq!(ChangegroupApplyResult::Error.to_status_text(), b"0".to_vec());
    assert_eq!(
        ChangegroupApplyResult::Success { heads_num_diff: i64::MIN }.to_status_text(),
        b"-9223372036854775809".to_vec()
    );
    assert_eq!(
        ChangegroupApplyResult::Success { heads_num_diff: i64::MAX }.to_status_text(),
        b"9223372036854775808".to_vec()
    );
}

#[test]
fn decimal_text() {
    assert_eq!(decimal_u64(0), b"0".to_vec());
    assert_eq!(decimal_u64(1207), b"1207".to_vec());
    assert_eq!(decimal_u64(u64::MAX), b"18446744073709551615".to_vec());
}

#[test]
fn reply_changegroup_part() {
    let p = replychangegroup_part(ChangegroupApplyResult::Success { heads_num_diff: 2 }, 17);
    assert_eq!(p.part_type, PartHeaderType::ReplyChangegroup);
    assert!(p.mandatory);
    assert_eq!(
        p.mparams,
        vec![(PartParam::Return, b"3".to_vec()), (PartParam::InReplyTo, b"17".to_vec())]
    );
}

#[test]
fn reply_pushkey_part() {
    let p = replypushkey_part(true, 4);
    assert_eq!(p.part_type, PartHeaderType::ReplyPushkey);
    assert_eq!(p.mparams, vec![(PartParam::Return, b"1".to_vec()), (PartParam::InReplyTo, b"4".to_vec())]);
    let p = replypushkey_part(false, 0);
    assert_eq!(p.mparams, vec![(PartParam::Return, b"0".to_vec()), (PartParam::InReplyTo, b"0".to_vec())]);
}

#[test]
fn listkey_payload() {
    let items = vec![
        (b"master".to_vec(), b"abc".to_vec()),
        (b"dev".to_vec(), b"def".to_vec()),
    ];
    let p = listkey_part(b"bookmarks".to_vec(), &items);
    assert_eq!(p.part_type, PartHeaderType::Listkeys);
    assert_eq!(p.mparams, vec![(PartParam::Namespace, b"bookmarks".to_vec())]);
    match p.data {
        PartData::Payload(bytes) => assert_eq!(bytes, b"master\tabc\ndev\tdef\n".to_vec()),
        _ => panic!("listkey part without payload"),
    }
    let empty = listkey_part(b"phases".to_vec(), &vec![]);
    match empty.data {
        PartData::Payload(bytes) => assert!(bytes.is_empty()),
        _ => panic!("listkey part without payload"),
    }
}

#[test]
fn changegroup_part_layout() {
    let obj = HgBlobNode { p1: Some(h(1)), p2: None, content: b"text".to_vec() };
    let p = changegroup_part(&vec![(h(4), obj)]);
    assert_eq!(p.part_type, PartHeaderType::Changegroup);
    assert_eq!(p.mparams, vec![(PartParam::Version, b"02".to_vec())]);
    let parts = match p.data {
        PartData::Changegroup(parts) => parts,
        _ => panic!("changegroup part without stream"),
    };
    assert_eq!(parts.len(), 4);
    match &parts[0] {
        Part::CgChunk(Section::Changeset, c) => {
            assert_eq!(c.node, h(4));
            assert_eq!(c.linknode, h(4));
            assert_eq!(c.p1, h(1));
            assert!(c.p2.is_null());
            assert!(c.base.is_null());
            assert_eq!(c.delta, Delta::new_fulltext(b"text".to_vec()));
        }
        _ => panic!("expected a changeset chunk"),
    }
    assert_eq!(parts[1], Part::SectionEnd(Section::Changeset));
    assert_eq!(parts[2], Part::SectionEnd(Section::Manifest));
    assert_eq!(parts[3], Part::End);
}

#[test]
fn changegroup_round_trip() {
    let a = HgBlobNode { p1: None, p2: None, content: b"root".to_vec() };
    let b = HgBlobNode { p1: Some(h(1)), p2: Some(h(2)), content: b"child".to_vec() };
    let entries = vec![(h(1), a.clone()), (h(3), b.clone())];
    let parts = match changegroup_part(&entries).data {
        PartData::Changegroup(parts) => parts,
        _ => panic!("changegroup part without stream"),
    };
    let chunks: Vec<ChangesetDeltaed> = parts
        .into_iter()
        .filter_map(|p| match p {
            Part::CgChunk(Section::Changeset, chunk) => Some(ChangesetDeltaed { chunk }),
            _ => None,
        })
        .collect();
    let decoded = convert_to_revlog_changesets(&chunks).unwrap();
    assert_eq!(decoded.len(), 2);
    for (i, (node, obj)) in decoded.iter().enumerate() {
        assert_eq!(node, &entries[i].0);
        assert_eq!(obj.p1, entries[i].1.p1);
        assert_eq!(obj.p2, entries[i].1.p2);
        assert_eq!(obj.content, entries[i].1.content);
    }
}

#[test]
fn treepack_part_layout() {
    let input = TreepackPartInput {
        node: h(5),
        p1: Some(h(6)),
        p2: None,
        content: b"tree".to_vec(),
        name: Some(MPathElement(b"sub".to_vec())),
        linknode: h(7),
        basepath: Some(MPath { elements: vec![MPathElement(b"dir".to_vec())] }),
    };
    let root = TreepackPartInput {
        node: h(8),
        p1: None,
        p2: None,
        content: b"root".to_vec(),
        name: None,
        linknode: h(7),
        basepath: None,
    };
    let p = treepack_part(&vec![input, root]);
    assert_eq!(p.part_type, PartHeaderType::B2xTreegroup2);
    assert_eq!(
        p.mparams,
        vec![
            (PartParam::Version, b"1".to_vec()),
            (PartParam::Cache, b"True".to_vec()),
            (PartParam::Category, b"manifests".to_vec()),
        ]
    );
    let parts = match p.data {
        PartData::Treepack(parts) => parts,
        _ => panic!("treepack part without stream"),
    };
    let dir = RepoPath::DirectoryPath(MPath {
        elements: vec![MPathElement(b"dir".to_vec()), MPathElement(b"sub".to_vec())],
    });
    assert_eq!(parts.len(), 9);
    assert_eq!(parts[0], WirepackPart::HistoryMeta { path: dir.clone(), entry_count: 1 });
    assert_eq!(
        parts[1],
        WirepackPart::History(HistoryEntry {
            node: h(5),
            p1: h(6),
            p2: HgNodeHash::null(),
            linknode: h(7),
            copy_from: None,
        })
    );
    assert_eq!(parts[2], WirepackPart::DataMeta { path: dir, entry_count: 1 });
    assert_eq!(
        parts[3],
        WirepackPart::Data(DataEntry {
            node: h(5),
            delta_base: HgNodeHash::null(),
            delta: Delta::new_fulltext(b"tree".to_vec()),
        })
    );
    assert_eq!(parts[4], WirepackPart::HistoryMeta { path: RepoPath::RootPath, entry_count: 1 });
    assert_eq!(parts[8], WirepackPart::End);
}
