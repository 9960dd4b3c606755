use mononoke_core::hash::HgNodeHash;
use mononoke_core::node_blob::HgParents;

fn h(b: u8) -> HgNodeHash {
    HgNodeHash::from_bytes(&[b; 20]).unwrap()
}

#[test]
fn parents_are_recorded_in_order() {
    assert_eq!(HgParents::new(None, None).get_nodes(), (None, None));
    assert_eq!(HgParents::new(Some(&h(1)), None).get_nodes(), (Some(h(1)), None));
    assert_eq!(HgParents::new(None, Some(&h(2))).get_nodes(), (Some(h(2)), None));
    assert_eq!(HgParents::new(Some(&h(1)), Some(&h(2))).get_nodes(), (Some(h(1)), Some(h(2))));
}
