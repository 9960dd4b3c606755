use mononoke_core::changegroup::{
    convert_to_revlog_changesets, ChangesetDeltaed, HgBlobNode, Part, Section,
};
use mononoke_core::hash::{compute_node_hash, HgNodeHash};
use mononoke_core::import::{
    is_import_from_beginning, plan_root_manifest, select_changesets, upload_changesets,
    upload_entry, ChangedEntry, EntryType, FileType, ImportError, ImportSelection, ImportSession,
    ParentSource, RevisionData, UploadNodeId, UploadState,
};
use mononoke_core::parts::{changegroup_part, PartData};
use mononoke_core::wire::{decode_changeset_section, encode_changeset_section};
use mononoke_core::path::{MPath, MPathElement, RepoPath};

fn h(b: u8) -> HgNodeHash {
    HgNodeHash::from_bytes(&[b; 20]).unwrap()
}

fn revision(csid: HgNodeHash, parents: Vec<HgNodeHash>) -> RevisionData {
    RevisionData {
        csid,
        parents,
        manifest_id: HgNodeHash::null(),
        manifest_p1: None,
        manifest_p2: None,
        changed: vec![],
    }
}

fn file_entry(name: &[u8], node: HgNodeHash) -> ChangedEntry {
    ChangedEntry {
        path: None,
        name: Some(MPathElement(name.to_vec())),
        ty: EntryType::File(FileType::Regular),
        node,
        p1: None,
        p2: None,
    }
}

#[test]
fn missing_parent_is_fatal_from_beginning() {
    let mut s = ImportSession::new(true);
    let r = s.plan_revision(&revision(h(2), vec![h(1)]));
    match r {
        Err(ImportError::ParentNotFound { parent, child }) => {
            assert_eq!(parent, h(1));
            assert_eq!(child, h(2));
        }
        _ => panic!("expected a missing parent"),
    }
    assert!(s.records.is_empty());
}

#[test]
fn missing_parent_comes_from_store_when_resumed() {
    let mut s = ImportSession::new(false);
    let plan = s.plan_revision(&revision(h(2), vec![h(1)])).unwrap();
    match plan.p1 {
        Some(ParentSource::Store(p)) => assert_eq!(p, h(1)),
        _ => panic!("expected the store"),
    }
    assert!(plan.p2.is_none());
    let plan = s.plan_revision(&revision(h(3), vec![h(2), h(1)])).unwrap();
    assert_eq!(plan.handle, 1);
    assert!(matches!(plan.p1, Some(ParentSource::Session(0))));
    assert!(matches!(plan.p2, Some(ParentSource::Store(_))));
}

#[test]
fn child_completes_only_after_parent() {
    let mut s = ImportSession::new(true);
    let a = s.plan_revision(&revision(h(1), vec![])).unwrap();
    let b = s.plan_revision(&revision(h(2), vec![h(1)])).unwrap();
    assert!(matches!(s.complete_changeset(b.handle), Err(ImportError::ParentPending)));
    assert_eq!(s.state(b.handle), UploadState::Pending);
    assert!(s.complete_changeset(a.handle).is_ok());
    assert!(s.complete_changeset(b.handle).is_ok());
    assert_eq!(s.state(b.handle), UploadState::Completed);
}

#[test]
fn failed_parent_fails_child() {
    let mut s = ImportSession::new(true);
    let a = s.plan_revision(&revision(h(1), vec![])).unwrap();
    let b = s.plan_revision(&revision(h(2), vec![h(1)])).unwrap();
    s.fail_changeset(a.handle);
    assert_eq!(s.state(a.handle), UploadState::Failed);
    assert!(matches!(s.complete_changeset(b.handle), Err(ImportError::ParentFailed)));
    assert_eq!(s.state(b.handle), UploadState::Failed);
}

#[test]
fn entry_upload_paths() {
    let e = ChangedEntry {
        path: Some(MPath { elements: vec![MPathElement(b"dir".to_vec())] }),
        name: Some(MPathElement(b"sub".to_vec())),
        ty: EntryType::Tree,
        node: h(4),
        p1: Some(h(5)),
        p2: None,
    };
    let u = upload_entry(&e).unwrap();
    assert_eq!(
        u.path,
        RepoPath::DirectoryPath(MPath {
            elements: vec![MPathElement(b"dir".to_vec()), MPathElement(b"sub".to_vec())]
        })
    );
    assert!(matches!(u.node_id, UploadNodeId::Checked(ref n) if *n == h(4)));
    assert_eq!(u.p1, Some(h(5)));
    let f = upload_entry(&file_entry(b"a.txt", h(6))).unwrap();
    assert_eq!(f.path, RepoPath::FilePath(MPath { elements: vec![MPathElement(b"a.txt".to_vec())] }));
    let root = ChangedEntry { path: None, name: None, ..e };
    assert!(matches!(upload_entry(&root), Err(ImportError::RootPathJoin)));
}

#[test]
fn root_manifest_upload() {
    assert!(plan_root_manifest(&HgNodeHash::null(), &None, &None).is_none());
    let u = plan_root_manifest(&h(3), &Some(h(1)), &None).unwrap();
    assert!(matches!(u.node_id, UploadNodeId::Supplied(ref n) if *n == h(3)));
    assert_eq!(u.path, RepoPath::RootPath);
    assert_eq!(u.p1, Some(h(1)));
    assert_eq!(u.p2, None);
}

#[test]
fn selection_of_changesets() {
    let all = vec![h(1), h(2), h(3), h(4)];
    let sel = ImportSelection { changeset: None, skip: Some(1), limit: Some(2) };
    assert_eq!(select_changesets(&all, &sel), vec![h(2), h(3)]);
    assert!(!is_import_from_beginning(&sel));
    let sel = ImportSelection { changeset: None, skip: None, limit: Some(10) };
    assert_eq!(select_changesets(&all, &sel), all);
    assert!(is_import_from_beginning(&sel));
    let sel = ImportSelection { changeset: Some(h(9)), skip: None, limit: None };
    assert_eq!(select_changesets(&all, &sel), vec![h(9)]);
    assert!(!is_import_from_beginning(&sel));
    let sel = ImportSelection { changeset: None, skip: Some(7), limit: None };
    assert!(select_changesets(&all, &sel).is_empty());
}

#[test]
fn two_revision_linear_import_round_trips() {
    // Root changeset with an empty manifest, then a child adding one file.
    let root_text = b"root changeset".to_vec();
    let root_id = compute_node_hash(&None, &None, &root_text);
    let child_text = b"child changeset adding a.txt".to_vec();
    let child_id = compute_node_hash(&Some(root_id.clone()), &None, &child_text);
    let file_id = compute_node_hash(&None, &None, b"file contents");
    let manifest_id = compute_node_hash(&None, &None, b"a.txt\0manifest");

    let revisions = vec![
        revision(root_id.clone(), vec![]),
        RevisionData {
            csid: child_id.clone(),
            parents: vec![root_id.clone()],
            manifest_id: manifest_id.clone(),
            manifest_p1: None,
            manifest_p2: None,
            changed: vec![file_entry(b"a.txt", file_id.clone())],
        },
    ];
    let (mut session, plans) = match upload_changesets(true, &revisions) {
        Ok(done) => done,
        Err(_) => panic!("import failed"),
    };
    assert_eq!(plans.len(), 2);
    assert!(plans[0].root_manifest.is_none());
    assert!(plans[0].entries.is_empty());
    assert!(plans[1].root_manifest.is_some());
    assert_eq!(plans[1].entries.len(), 1);
    assert!(matches!(plans[1].p1, Some(ParentSource::Session(0))));

    // The store: each changeset keyed by the hash of its parents and content.
    let texts = vec![root_text, child_text];
    let mut store: Vec<(HgNodeHash, HgBlobNode)> = Vec::new();
    for (plan, text) in plans.iter().zip(texts) {
        let p1 = match &plan.p1 {
            Some(ParentSource::Session(i)) => Some(store[*i].0.clone()),
            Some(ParentSource::Store(p)) => Some(p.clone()),
            None => None,
        };
        let obj = HgBlobNode { p1, p2: None, content: text };
        assert_eq!(obj.node_id(), plan.csid);
        store.push((obj.node_id(), obj));
        session.complete_changeset(plan.handle).unwrap();
    }
    assert_eq!(store.len(), 2);
    assert_eq!(store[1].1.p1, Some(store[0].0.clone()));
    assert_eq!(session.state(1), UploadState::Completed);

    let parts = match changegroup_part(&store).data {
        PartData::Changegroup(parts) => parts,
        _ => panic!("changegroup part without stream"),
    };
    let sent: Vec<_> = parts
        .into_iter()
        .filter_map(|p| match p {
            Part::CgChunk(Section::Changeset, chunk) => Some(chunk),
            _ => None,
        })
        .collect();
    let wire = encode_changeset_section(&sent);
    let received = decode_changeset_section(&wire).expect("the section reads back");
    let chunks: Vec<ChangesetDeltaed> =
        received.into_iter().map(|chunk| ChangesetDeltaed { chunk }).collect();
    let decoded = convert_to_revlog_changesets(&chunks).unwrap();
    assert_eq!(decoded.len(), 2);
    for (i, (node, obj)) in decoded.iter().enumerate() {
        assert_eq!(node, &store[i].0);
        assert_eq!(obj.p1, store[i].1.p1);
        assert_eq!(obj.p2, store[i].1.p2);
        assert_eq!(obj.content, store[i].1.content);
    }
}

#[test]
fn changed_entries_exclude_those_in_parents() {
    let root = vec![
        file_entry(b"same.txt", h(1)),
        file_entry(b"changed.txt", h(3)),
        file_entry(b"new.txt", h(4)),
    ];
    let p1 = vec![file_entry(b"same.txt", h(1)), file_entry(b"changed.txt", h(2))];
    let p2 = vec![file_entry(b"new.txt", h(5))];
    assert_eq!(mononoke_core::import::new_entry_intersection(&root, Some(&p1), Some(&p2)), vec![1, 2]);
    assert_eq!(mononoke_core::import::new_entry_intersection(&root, None, None), vec![0, 1, 2]);
    let p2_has_new = vec![file_entry(b"new.txt", h(4))];
    assert_eq!(
        mononoke_core::import::new_entry_intersection(&root, Some(&p1), Some(&p2_has_new)),
        vec![1]
    );
}
