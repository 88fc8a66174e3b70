use cinnabar::git::{FileMode, GitOid};
use cinnabar::oid::{Abbrev, GitObjectId, HgObjectId, IdError};

fn id(byte: u8) -> GitObjectId {
    let mut b = [0u8; 20];
    for i in 0..20 {
        b[i] = byte;
    }
    GitObjectId::from_bytes(b)
}

#[test]
fn raw_bytes_round_trip() {
    let mut b = [0u8; 20];
    for i in 0..20 {
        b[i] = (i as u8) * 7 + 3;
    }
    let oid = GitObjectId::from_raw_bytes(&b).unwrap();
    assert_eq!(oid.as_raw_bytes(), &b[..]);
}

#[test]
fn raw_bytes_wrong_length_rejected() {
    assert_eq!(GitObjectId::from_raw_bytes(&[0u8; 19]), Err(IdError::InvalidLength));
    assert_eq!(GitObjectId::from_raw_bytes(&[0u8; 21]), Err(IdError::InvalidLength));
    assert_eq!(GitObjectId::from_raw_bytes(&[]), Err(IdError::InvalidLength));
}

#[test]
fn hex_round_trip_and_null() {
    let oid = GitObjectId::from_hex(b"0123456789abcdef0123456789abcdef01234567").unwrap();
    assert_eq!(oid.to_hex(), b"0123456789abcdef0123456789abcdef01234567".to_vec());
    assert!(!oid.is_null());
    let null = GitObjectId::null();
    assert!(null.is_null());
    assert_eq!(null.to_hex(), b"0000000000000000000000000000000000000000".to_vec());
}

#[test]
fn hex_errors() {
    assert_eq!(
        GitObjectId::from_hex(b"0123"),
        Err(IdError::InvalidLength)
    );
    assert_eq!(
        GitObjectId::from_hex(b"0123456789abcdef0123456789abcdef0123456g"),
        Err(IdError::InvalidHex)
    );
    // uppercase digits are not accepted: the rendering is lowercase exactly
    assert_eq!(
        GitObjectId::from_hex(b"0123456789ABCDEF0123456789ABCDEF01234567"),
        Err(IdError::InvalidHex)
    );
}

#[test]
fn abbrev_parsing() {
    assert!(matches!(Abbrev::from_hex(b"aa1"), Err(IdError::InvalidLength)));
    assert!(matches!(Abbrev::from_hex(b"xyzw"), Err(IdError::InvalidHex)));
    let a = Abbrev::from_hex(b"aa11f").unwrap();
    assert_eq!(a.len(), 5);
    let long = Abbrev::from_hex(b"0123456789abcdef0123456789abcdef01234567").unwrap();
    assert_eq!(long.len(), 40);
}

#[test]
fn classification_by_mode() {
    let g = id(0x42);
    let commit = GitOid::from(g, FileMode::gitlink());
    let tree = GitOid::from(g, FileMode::directory());
    let blob = GitOid::from(g, FileMode::regular());
    let blob_x = GitOid::from(g, FileMode::executable());
    let blob_l = GitOid::from(g, FileMode::symlink());

    assert!(commit.is_commit() && !commit.is_tree() && !commit.is_blob());
    assert!(tree.is_tree() && !tree.is_commit() && !tree.is_blob());
    assert!(blob.is_blob() && !blob.is_tree() && !blob.is_commit());
    assert!(blob_x.is_blob());
    assert!(blob_l.is_blob());

    // determinism: same inputs, same variant
    let again = GitOid::from(g, FileMode::gitlink());
    assert_eq!(commit, again);
}

#[test]
fn equality_across_forms() {
    let g = id(0x17);
    let as_commit = GitOid::from(g, FileMode::gitlink());
    let as_tree = GitOid::from(g, FileMode::directory());
    let as_blob = GitOid::from(g, FileMode::regular());

    // every form holding the same raw bytes compares equal to the generic id
    assert!(as_commit.eq_object_id(&g));
    assert!(as_tree.eq_object_id(&g));
    assert!(as_blob.eq_object_id(&g));
    // and to each other, regardless of the variant tag
    assert!(as_commit.eq_oid(&as_tree));
    assert!(as_tree.eq_oid(&as_blob));
    assert_eq!(as_commit.as_raw_bytes(), g.as_raw_bytes());
    assert_eq!(as_tree.to_object_id(), g);

    let other = id(0x18);
    assert!(!as_commit.eq_object_id(&other));
}

#[test]
fn typed_conversions() {
    let g = id(9);
    let o = GitOid::from(g, FileMode::directory());
    let t = o.into_tree().unwrap();
    assert_eq!(t.to_object_id(), g);
    assert!(o.into_blob().is_none());
    assert!(o.into_commit().is_none());
}

#[test]
fn hg_ids() {
    let mut b = [0u8; 20];
    b[0] = 0xaa;
    let h = HgObjectId::from_bytes(b);
    assert!(!h.is_null());
    assert!(h.eq_id(&HgObjectId::from_bytes(b)));
    assert!(!h.eq_id(&HgObjectId::null()));
    assert_eq!(h.as_raw_bytes(), &b[..]);
    assert!(HgObjectId::from_raw_bytes(&b).unwrap().eq_id(&h));
}

#[test]
fn ordering_is_byte_wise() {
    // ordering exists for use as a sorted-tree key: byte-wise, most
    // significant byte first
    let mut lo = [0u8; 20];
    let mut hi = [0u8; 20];
    lo[0] = 1;
    hi[0] = 2;
    let a = GitObjectId::from_bytes(lo);
    let b = GitObjectId::from_bytes(hi);
    assert!(a < b);
    let mut lo2 = [9u8; 20];
    let mut hi2 = [9u8; 20];
    lo2[19] = 0;
    hi2[19] = 1;
    assert!(GitObjectId::from_bytes(lo2) < GitObjectId::from_bytes(hi2));
    assert!(HgObjectId::from_bytes(lo) < HgObjectId::from_bytes(hi));
}
