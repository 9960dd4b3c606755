use mononoke_core::hash::{compute_node_hash, hash_lt, hex_digit, HgNodeHash};

fn hex(s: &str) -> HgNodeHash {
    HgNodeHash::from_ascii_hex(s.as_bytes()).unwrap()
}

#[test]
fn empty_file_node_hash() {
    let h = compute_node_hash(&None, &None, b"");
    assert_eq!(h, hex("b80de5d138758541c5f05265ad144ab9fa86d1db"));
}

#[test]
fn node_hash_with_content() {
    let h = compute_node_hash(&None, &None, b"abc");
    assert_eq!(h, hex("f6d864039d10a8934d0d581d342780298aa9fb28"));
}

#[test]
fn node_hash_sorts_parents() {
    let a = HgNodeHash::from_bytes(&[2; 20]).unwrap();
    let b = HgNodeHash::from_bytes(&[1; 20]).unwrap();
    let expected = hex("079b2153deaa84e751b2a827980291f165847572");
    assert_eq!(compute_node_hash(&Some(a.clone()), &Some(b.clone()), b"x"), expected);
    assert_eq!(compute_node_hash(&Some(b), &Some(a), b"x"), expected);
}

#[test]
fn dedup_same_parents_and_content() {
    let p = HgNodeHash::from_bytes(&[9; 20]).unwrap();
    let first = compute_node_hash(&Some(p.clone()), &None, b"same content");
    let second = compute_node_hash(&Some(p.clone()), &None, b"same content");
    assert_eq!(first, second);
    let other = compute_node_hash(&Some(p), &None, b"other content");
    assert_ne!(first, other);
}

#[test]
fn hex_parsing() {
    let h = hex("00ff10Aa000000000000000000000000000000b1");
    assert_eq!(&h.as_bytes()[..4], &[0x00, 0xff, 0x10, 0xaa]);
    assert_eq!(h.as_bytes()[19], 0xb1);
    assert!(HgNodeHash::from_ascii_hex(b"00").is_none());
    assert!(HgNodeHash::from_ascii_hex(b"g0ff10aa000000000000000000000000000000b1").is_none());
    assert_eq!(hex_digit(b'f'), Some(15));
    assert_eq!(hex_digit(b'z'), None);
}

#[test]
fn null_and_ordering() {
    let n = HgNodeHash::null();
    assert!(n.is_null());
    assert_eq!(n.as_bytes(), &[0u8; 20]);
    let one = HgNodeHash::from_bytes(&[1; 20]).unwrap();
    assert!(!one.is_null());
    assert!(hash_lt(&n, &one));
    assert!(!hash_lt(&one, &n));
    assert!(!hash_lt(&one, &one));
    assert!(HgNodeHash::from_bytes(&[1; 19]).is_none());
}
