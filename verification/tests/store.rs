use cinnabar::git::FileMode;
use cinnabar::notes::{
    add_files_meta, add_hg2git, get_files_meta, get_note_hg, resolve_hg2git, store_metadata_notes,
    git_notes_tree, hg_notes_tree, MetadataStores, NoteEntry,
};
use cinnabar::objects::empty_tree_oid;
use cinnabar::oid::{hg_object_id, Abbrev, GitObjectId, HgObjectId};

use sha1::{Digest, Sha1};

fn gid(hex: &str) -> GitObjectId {
    GitObjectId::from_hex(hex.as_bytes()).unwrap()
}

fn hid(hex: &str) -> HgObjectId {
    HgObjectId::from_raw_bytes(gid(hex).as_raw_bytes()).unwrap()
}

fn fill(first: u8) -> String {
    let mut s = String::new();
    s.push_str(&format!("{:02x}", first));
    for i in 1..20 {
        s.push_str(&format!("{:02x}", i));
    }
    s
}

fn fresh_git_tree() -> git_notes_tree {
    git_notes_tree::new(GitObjectId::null(), Vec::new(), false)
}

fn fresh_hg_tree() -> hg_notes_tree {
    hg_notes_tree::new(GitObjectId::null(), Vec::new(), false, FileMode::gitlink())
}

fn expected_commit_id(tree_bytes: &[u8]) -> GitObjectId {
    let tree_digest: [u8; 20] = Sha1::digest(tree_bytes).into();
    commit_of_tree_digest(&tree_digest)
}

fn commit_of_tree_digest(tree_digest: &[u8; 20]) -> GitObjectId {
    let tree_hex: String = tree_digest.iter().map(|b| format!("{:02x}", b)).collect();
    let body = format!(
        "tree {}\nauthor  <cinnabar@git> 0 +0000\ncommitter  <cinnabar@git> 0 +0000\n\n",
        tree_hex
    );
    let mut full = format!("commit {}", body.len()).into_bytes();
    full.push(0);
    full.extend_from_slice(body.as_bytes());
    let digest: [u8; 20] = Sha1::digest(&full).into();
    GitObjectId::from_raw_bytes(&digest).unwrap()
}

#[test]
fn add_then_get_returns_value() {
    let mut t = fresh_git_tree();
    let k = gid(&fill(0x11));
    let v = gid(&fill(0x22));
    assert!(t.get_note(k).is_none());
    t.add_note(k, v);
    assert_eq!(t.get_note(k), Some(v));
}

#[test]
fn add_twice_keeps_first_value() {
    let mut t = fresh_git_tree();
    let k = gid(&fill(0x11));
    let v1 = gid(&fill(0x22));
    let v2 = gid(&fill(0x33));
    t.add_note(k, v1);
    t.add_note(k, v2);
    assert_eq!(t.get_note(k), Some(v1));
}

#[test]
fn remove_then_get_absent_even_if_never_present() {
    let mut t = fresh_git_tree();
    let k = gid(&fill(0x11));
    let v = gid(&fill(0x22));
    t.remove_note(k);
    assert!(t.get_note(k).is_none());
    t.add_note(k, v);
    t.remove_note(k);
    assert!(t.get_note(k).is_none());
    t.remove_note(k);
    assert!(t.get_note(k).is_none());
}

#[test]
fn full_length_prefix_behaves_as_get() {
    let mut t = fresh_hg_tree();
    let key_hex = fill(0xab);
    let k = hid(&key_hex);
    let v = gid(&fill(0x44));
    t.add_note(k, v);
    let full = Abbrev::from_hex(key_hex.as_bytes()).unwrap();
    assert_eq!(t.get_note_abbrev(&full), Some(v));
    assert_eq!(t.get_note_abbrev(&full), t.get_note(k));
    let absent_hex = fill(0xcd);
    let absent = Abbrev::from_hex(absent_hex.as_bytes()).unwrap();
    assert_eq!(t.get_note_abbrev(&absent), t.get_note(hid(&absent_hex)));
    assert!(t.get_note_abbrev(&absent).is_none());
}

#[test]
fn four_digit_prefix_resolves_unique_match() {
    let mut t = fresh_hg_tree();
    let k = hid(&fill(0xab));
    let v = gid(&fill(0x55));
    t.add_note(k, v);
    let a = Abbrev::from_hex(b"ab01").unwrap();
    assert_eq!(t.get_note_abbrev(&a), Some(v));
    let miss = Abbrev::from_hex(b"ab02").unwrap();
    assert!(t.get_note_abbrev(&miss).is_none());
}

#[test]
fn ambiguous_prefix_resolves_to_some_match() {
    // three full-length keys, two sharing a prefix (a 2-digit prefix would
    // be below the allowed minimum of 4 digits, so the shared prefix here
    // is 4 digits long)
    let mut t = fresh_hg_tree();
    let ka = hid(&format!("aa11{}", "00".repeat(18)));
    let kb = hid(&format!("aa11{}", "ff".repeat(18)));
    let kc = hid(&format!("bb33{}", "11".repeat(18)));
    let va = gid(&fill(0xa1));
    let vb = gid(&fill(0xa2));
    let vc = gid(&fill(0xa3));
    t.add_note(ka, va);
    t.add_note(kb, vb);
    t.add_note(kc, vc);

    // an ambiguous prefix resolves to one of the matching keys' values,
    // never to the value of a key it does not match
    let aa = Abbrev::from_hex(b"aa11").unwrap();
    let got = t.get_note_abbrev(&aa).unwrap();
    assert!(got == va || got == vb);
    assert!(got != vc);
    // a prefix matching exactly one key resolves to exactly that value
    let bb = Abbrev::from_hex(b"bb33").unwrap();
    assert_eq!(t.get_note_abbrev(&bb), Some(vc));
}

#[test]
fn for_each_yields_all_entries() {
    let mut t = fresh_git_tree();
    let k1 = gid(&fill(0x01));
    let v1 = gid(&fill(0x02));
    let k2 = gid(&fill(0x03));
    let v2 = gid(&fill(0x04));
    t.add_note(k1, v1);
    t.add_note(k2, v2);
    let all: Vec<NoteEntry> = t.for_each();
    assert_eq!(all.len(), 2);
    assert!(all.iter().any(|e| e.key == k1 && e.value == v1));
    assert!(all.iter().any(|e| e.key == k2 && e.value == v2));
}

#[test]
fn flush_untouched_store_hands_back_fallback() {
    // no entries ever added, no prior root: the untouched fallback comes
    // back verbatim, and a null fallback yields the null sentinel
    let mut t = fresh_git_tree();
    let fallback = gid(&fill(0x77));
    let r = store_metadata_notes(t.inner_mut(), &fallback);
    assert_eq!(r, fallback);

    let mut t2 = fresh_git_tree();
    let r2 = store_metadata_notes(t2.inner_mut(), &GitObjectId::null());
    assert!(r2.is_null());
}

#[test]
fn flush_emptied_store_yields_empty_tree_commit() {
    let mut t = fresh_git_tree();
    let k = gid(&fill(0x11));
    let v = gid(&fill(0x22));
    t.add_note(k, v);
    let first = store_metadata_notes(t.inner_mut(), &GitObjectId::null());
    assert!(!first.is_null());
    // emptying the store leaves it dirty with no entries: the serialized
    // tree resolves to the well-known empty-tree identifier
    t.remove_note(k);
    let r = store_metadata_notes(t.inner_mut(), &GitObjectId::null());
    let empty_tree: [u8; 20] = empty_tree_oid().as_raw_bytes().try_into().unwrap();
    assert_eq!(r, commit_of_tree_digest(&empty_tree));
    assert_eq!(
        empty_tree_oid().to_hex(),
        b"4b825dc642cb6eb9a060e54bf8d69288fbee4904".to_vec()
    );
}

#[test]
fn flush_dirty_empty_store_without_root_is_null() {
    let mut t = fresh_git_tree();
    let k = gid(&fill(0x11));
    t.remove_note(k);  // dirty, still empty, no root ever existed
    let r = store_metadata_notes(t.inner_mut(), &GitObjectId::null());
    assert!(r.is_null());
}

#[test]
fn flush_matches_external_hashing() {
    // the snapshot's identifier is the real content address of the
    // serialized tree wrapped in the fixed-identity commit
    let mut t = fresh_hg_tree();
    let key_hex = fill(0xab);
    let k = hid(&key_hex);
    let v = gid(&fill(0x44));
    t.add_note(k, v);
    let r = store_metadata_notes(t.inner_mut(), &GitObjectId::null());

    let mut payload: Vec<u8> = Vec::new();
    payload.extend_from_slice(b"160000 ");
    payload.extend_from_slice(key_hex.as_bytes());
    payload.push(0);
    payload.extend_from_slice(v.as_raw_bytes());
    let mut tree_obj = format!("tree {}", payload.len()).into_bytes();
    tree_obj.push(0);
    tree_obj.extend_from_slice(&payload);
    assert_eq!(r, expected_commit_id(&tree_obj));
}

#[test]
fn flush_twice_without_mutation_is_stable() {
    let mut t = fresh_git_tree();
    let k = gid(&fill(0x11));
    let v = gid(&fill(0x22));
    t.add_note(k, v);
    let first = store_metadata_notes(t.inner_mut(), &GitObjectId::null());
    let second = store_metadata_notes(t.inner_mut(), &first);
    assert_eq!(first, second);
    // even with an unrelated fallback, the persisted root wins
    let third = store_metadata_notes(t.inner_mut(), &gid(&fill(0x99)));
    assert_eq!(first, third);
}

#[test]
fn lazy_init_loads_entries_from_root() {
    let k = gid(&fill(0x11));
    let v = gid(&fill(0x22));
    let loaded = vec![NoteEntry { key: k, value: v }];
    let root = gid(&fill(0x66));
    let mut t = git_notes_tree::new(root, loaded, false);
    assert_eq!(t.get_note(k), Some(v));
    // a clean store flushes back to the root it was loaded from
    let r = store_metadata_notes(t.inner_mut(), &GitObjectId::null());
    assert_eq!(r, root);
}

#[test]
fn start_empty_ignores_stale_root() {
    let k = gid(&fill(0x11));
    let v = gid(&fill(0x22));
    let loaded = vec![NoteEntry { key: k, value: v }];
    let root = gid(&fill(0x66));
    let mut t = hg_notes_tree::new(root, loaded, true, FileMode::regular());
    assert!(t.get_note(hid(&fill(0x11))).is_none());
}

#[test]
fn done_releases_state() {
    let mut t = fresh_git_tree();
    let k = gid(&fill(0x11));
    t.add_note(k, gid(&fill(0x22)));
    t.done();
    // done on an untouched store is a no-op too
    let mut t2 = fresh_git_tree();
    t2.done();
}

#[test]
fn stores_context_round_trip() {
    let mut stores = MetadataStores {
        git2hg: fresh_git_tree(),
        hg2git: fresh_hg_tree(),
        files_meta: hg_notes_tree::new(
            GitObjectId::null(),
            Vec::new(),
            true,
            FileMode::regular(),
        ),
    };
    let hg = hg_object_id::from_oid(&hid(&fill(0xab)));
    let g = gid(&fill(0x12));
    assert!(resolve_hg2git(&mut stores, &hg).is_none());
    add_hg2git(&mut stores, &hg, &g);
    assert_eq!(resolve_hg2git(&mut stores, &hg), Some(g));

    let meta = gid(&fill(0x13));
    assert!(get_files_meta(&mut stores, &hg).is_none());
    add_files_meta(&mut stores, &hg, &meta);
    assert_eq!(get_files_meta(&mut stores, &hg), Some(meta));
    // the two namespaces stay separate
    assert_eq!(resolve_hg2git(&mut stores, &hg), Some(g));
    assert_eq!(
        get_note_hg(stores.hg2git.inner_mut(), &hg),
        Some(g)
    );

    let round = hg.to_oid();
    assert!(round.eq_id(&hid(&fill(0xab))));
    assert!(hg_object_id::default().to_oid().is_null());
}
