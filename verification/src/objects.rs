//! Byte layout and content-addressed naming of the persisted snapshot
//! objects: the notes tree serialized as a tree object, wrapped in a
//! synthetic root commit with a fixed placeholder identity and zero
//! timestamp.

use vstd::prelude::*;

use sha1::Digest;

use crate::notes::{entries_view, NoteEntry};
use crate::oid::{hex_seq, GitObjectId};

verus! {

/// The digest the hash function in use assigns to `data`.
pub uninterp spec fn sha1_of(data: Seq<u8>) -> Seq<u8>;

/// Relies on sha1::Sha1 via digest::Digest::digest: the SHA-1 digest of the
/// input, 20 bytes, a pure function of the data alone.
#[verifier::external_body]
fn sha1_digest(data: &[u8]) -> (r: [u8; 20])
    ensures
        r@ =~= sha1_of(data@),
{
    let out: [u8; 20] = sha1::Sha1::digest(data).into();
    out
}

/// The header and tree line that open every snapshot commit: the commit
/// body has a fixed length because the author and committer lines are fixed.
pub open spec fn commit_prefix() -> Seq<u8> {
    seq![99u8, 111, 109, 109, 105, 116, 32, 49, 49, 50, 0, 116, 114, 101, 101, 32]
}

/// The fixed placeholder author and committer lines with zero timestamp,
/// and the blank line closing the commit header.
pub open spec fn signature_block() -> Seq<u8> {
    seq![
        97u8,
        117,
        116,
        104,
        111,
        114,
        32,
        32,
        60,
        99,
        105,
        110,
        110,
        97,
        98,
        97,
        114,
        64,
        103,
        105,
        116,
        62,
        32,
        48,
        32,
        43,
        48,
        48,
        48,
        48,
        10,
        99,
        111,
        109,
        109,
        105,
        116,
        116,
        101,
        114,
        32,
        32,
        60,
        99,
        105,
        110,
        110,
        97,
        98,
        97,
        114,
        64,
        103,
        105,
        116,
        62,
        32,
        48,
        32,
        43,
        48,
        48,
        48,
        48,
        10,
        10,
    ]
}

/// The well-known identifier of the empty tree object.
pub open spec fn empty_tree_id_seq() -> Seq<u8> {
    seq![75u8, 130, 93, 198, 66, 203, 110, 185, 160, 96, 229, 75, 248, 214, 146, 136, 251, 238, 73, 4]
}

/// The decimal ASCII rendering of `n`, without leading zeros.
pub open spec fn decimal_seq(n: nat) -> Seq<u8>
    decreases n,
{
    if n < 10 {
        seq![(48 + n) as u8]
    } else {
        decimal_seq(n / 10) + seq![(48 + n % 10) as u8]
    }
}

/// The octal ASCII rendering of `m`, without leading zeros, as tree entries
/// record their mode.
pub open spec fn octal_seq(m: nat) -> Seq<u8>
    decreases m,
{
    if m < 8 {
        seq![(48 + m) as u8]
    } else {
        octal_seq(m / 8) + seq![(48 + m % 8) as u8]
    }
}

/// One serialized tree entry: the octal mode, a space, the key's 40-digit
/// hex name, a NUL, then the raw value identifier.
pub open spec fn entry_bytes(e: (Seq<u8>, Seq<u8>), mode: u16) -> Seq<u8> {
    octal_seq(mode as nat) + seq![32u8] + hex_seq(e.0) + seq![0u8] + e.1
}

/// The serialized entries of a tree object, in the store's entry order.
pub open spec fn tree_payload(s: Seq<(Seq<u8>, Seq<u8>)>, mode: u16) -> Seq<u8>
    decreases s.len(),
{
    if s.len() == 0 {
        Seq::empty()
    } else {
        tree_payload(s.drop_last(), mode) + entry_bytes(s.last(), mode)
    }
}

/// The complete tree object: type, decimal payload length, NUL, payload.
pub open spec fn tree_object_bytes(s: Seq<(Seq<u8>, Seq<u8>)>, mode: u16) -> Seq<u8> {
    seq![116u8, 114, 101, 101, 32] + decimal_seq(tree_payload(s, mode).len()) + seq![0u8]
        + tree_payload(s, mode)
}

/// The complete snapshot commit object naming `tree_id`.
pub open spec fn commit_object_bytes(tree_id: Seq<u8>) -> Seq<u8> {
    commit_prefix() + hex_seq(tree_id) + seq![10u8] + signature_block()
}

/// The identifier of the snapshot commit naming `tree_id`.
pub open spec fn spec_commit_id(tree_id: Seq<u8>) -> Seq<u8> {
    sha1_of(commit_object_bytes(tree_id))
}

/// The identifier the serialized store resolves to: the well-known empty
/// tree when nothing is mapped, else the content address of the tree object.
pub open spec fn spec_tree_id(s: Seq<(Seq<u8>, Seq<u8>)>, mode: u16) -> Seq<u8> {
    if s.len() == 0 {
        empty_tree_id_seq()
    } else {
        sha1_of(tree_object_bytes(s, mode))
    }
}

/// Appends a byte slice.
pub(crate) fn push_slice(buf: &mut Vec<u8>, s: &[u8])
    ensures
        final(buf)@ =~= old(buf)@ + s@,
{
    let mut i: usize = 0;
    while i < s.len()
        invariant
            i <= s@.len(),
            buf@ =~= old(buf)@ + s@.take(i as int),
        decreases s@.len() - i,
    {
        buf.push(s[i]);
        assert(buf@ =~= old(buf)@ + s@.take(i as int + 1));
        i += 1;
    }
    assert(s@.take(s@.len() as int) =~= s@);
}

/// Appends the decimal rendering of `n`.
pub(crate) fn push_decimal(buf: &mut Vec<u8>, n: usize)
    ensures
        final(buf)@ =~= old(buf)@ + decimal_seq(n as nat),
    decreases n,
{
    if n >= 10 {
        push_decimal(buf, n / 10);
    }
    buf.push((n % 10) as u8 + 48);
    assert(buf@ =~= old(buf)@ + decimal_seq(n as nat));
}

/// Appends the octal rendering of `m`.
pub(crate) fn push_octal(buf: &mut Vec<u8>, m: u16)
    ensures
        final(buf)@ =~= old(buf)@ + octal_seq(m as nat),
    decreases m,
{
    if m >= 8 {
        push_octal(buf, m / 8);
    }
    buf.push((m % 8) as u8 + 48);
    assert(buf@ =~= old(buf)@ + octal_seq(m as nat));
}

/// Appends the 40-digit hex name of `id`.
pub(crate) fn push_hex(buf: &mut Vec<u8>, id: &GitObjectId)
    ensures
        final(buf)@ =~= old(buf)@ + hex_seq(id@),
{
    let h = id.to_hex();
    push_slice(buf, h.as_slice());
}

/// The well-known empty-tree identifier as a value.
pub fn empty_tree_oid() -> (r: GitObjectId)
    ensures
        r@ =~= empty_tree_id_seq(),
{
    let mut a = [0u8; 20];
    a[0] = 75;
    a[1] = 130;
    a[2] = 93;
    a[3] = 198;
    a[4] = 66;
    a[5] = 203;
    a[6] = 110;
    a[7] = 185;
    a[8] = 160;
    a[9] = 96;
    a[10] = 229;
    a[11] = 75;
    a[12] = 248;
    a[13] = 214;
    a[14] = 146;
    a[15] = 136;
    a[16] = 251;
    a[17] = 238;
    a[18] = 73;
    a[19] = 4;
    assert(a@ =~= empty_tree_id_seq());
    GitObjectId::from_bytes(a)
}

/// Appends the fixed commit prefix.
pub(crate) fn push_commit_prefix(buf: &mut Vec<u8>)
    ensures
        final(buf)@ =~= old(buf)@ + commit_prefix(),
{
    buf.push(99);
    buf.push(111);
    buf.push(109);
    buf.push(109);
    buf.push(105);
    buf.push(116);
    buf.push(32);
    buf.push(49);
    buf.push(49);
    buf.push(50);
    buf.push(0);
    buf.push(116);
    buf.push(114);
    buf.push(101);
    buf.push(101);
    buf.push(32);
    assert(buf@ =~= old(buf)@ + commit_prefix());
}

/// Appends the fixed signature block.
pub(crate) fn push_signature_block(buf: &mut Vec<u8>)
    ensures
        final(buf)@ =~= old(buf)@ + signature_block(),
{
    buf.push(97);
    buf.push(117);
    buf.push(116);
    buf.push(104);
    buf.push(111);
    buf.push(114);
    buf.push(32);
    buf.push(32);
    buf.push(60);
    buf.push(99);
    buf.push(105);
    buf.push(110);
    buf.push(110);
    buf.push(97);
    buf.push(98);
    buf.push(97);
    buf.push(114);
    buf.push(64);
    buf.push(103);
    buf.push(105);
    buf.push(116);
    buf.push(62);
    buf.push(32);
    buf.push(48);
    buf.push(32);
    buf.push(43);
    buf.push(48);
    buf.push(48);
    buf.push(48);
    buf.push(48);
    buf.push(10);
    buf.push(99);
    buf.push(111);
    buf.push(109);
    buf.push(109);
    buf.push(105);
    buf.push(116);
    buf.push(116);
    buf.push(101);
    buf.push(114);
    buf.push(32);
    buf.push(32);
    buf.push(60);
    buf.push(99);
    buf.push(105);
    buf.push(110);
    buf.push(110);
    buf.push(97);
    buf.push(98);
    buf.push(97);
    buf.push(114);
    buf.push(64);
    buf.push(103);
    buf.push(105);
    buf.push(116);
    buf.push(62);
    buf.push(32);
    buf.push(48);
    buf.push(32);
    buf.push(43);
    buf.push(48);
    buf.push(48);
    buf.push(48);
    buf.push(48);
    buf.push(10);
    buf.push(10);
    assert(buf@ =~= old(buf)@ + signature_block());
}

/// Serializes the store's entries as a complete tree object.
pub(crate) fn tree_object_vec(entries: &Vec<NoteEntry>, mode: u16) -> (r: Vec<u8>)
    ensures
        r@ =~= tree_object_bytes(entries_view(entries@), mode),
{
    let mut payload: Vec<u8> = Vec::new();
    let mut i: usize = 0;
    while i < entries.len()
        invariant
            i <= entries@.len(),
            payload@ =~= tree_payload(entries_view(entries@).take(i as int), mode),
        decreases entries@.len() - i,
    {
        let ghost s = entries_view(entries@);
        let ghost pre = payload@;
        push_octal(&mut payload, mode);
        payload.push(32);
        push_hex(&mut payload, &entries[i].key);
        payload.push(0);
        push_slice(&mut payload, entries[i].value.as_raw_bytes());
        proof {
            assert(payload@ =~= pre + entry_bytes(s[i as int], mode));
            assert(s.take(i as int + 1).drop_last() =~= s.take(i as int));
            assert(s.take(i as int + 1).last() == s[i as int]);
            assert(tree_payload(s.take(i as int + 1), mode) == tree_payload(
                s.take(i as int),
                mode,
            ) + entry_bytes(s[i as int], mode));
            assert(payload@ =~= tree_payload(s.take(i as int + 1), mode));
        }
        i += 1;
    }
    proof {
        assert(entries_view(entries@).take(entries@.len() as int) =~= entries_view(entries@));
    }
    let mut r: Vec<u8> = Vec::new();
    r.push(116);
    r.push(114);
    r.push(101);
    r.push(101);
    r.push(32);
    assert(r@ =~= seq![116u8, 114, 101, 101, 32]);
    push_decimal(&mut r, payload.len());
    r.push(0);
    push_slice(&mut r, payload.as_slice());
    proof {
        assert(r@ =~= tree_object_bytes(entries_view(entries@), mode));
    }
    r
}

/// The content address of the store serialized as a tree object.
pub(crate) fn tree_id_of(entries: &Vec<NoteEntry>, mode: u16) -> (r: GitObjectId)
    ensures
        r@ =~= sha1_of(tree_object_bytes(entries_view(entries@), mode)),
{
    let obj = tree_object_vec(entries, mode);
    let digest = sha1_digest(obj.as_slice());
    GitObjectId::from_bytes(digest)
}

/// The content address of the snapshot commit naming `tree_id`.
pub(crate) fn commit_id_of(tree_id: &GitObjectId) -> (r: GitObjectId)
    ensures
        r@ =~= spec_commit_id(tree_id@),
{
    let mut obj: Vec<u8> = Vec::new();
    push_commit_prefix(&mut obj);
    push_hex(&mut obj, tree_id);
    obj.push(10);
    push_signature_block(&mut obj);
    proof {
        assert(obj@ =~= commit_object_bytes(tree_id@));
    }
    let digest = sha1_digest(obj.as_slice());
    GitObjectId::from_bytes(digest)
}

} // verus!
