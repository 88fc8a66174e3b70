//! Typed (kind-branded) identifiers of the host store and the classified
//! reference union whose variant is chosen by a tree-entry file mode.

use vstd::prelude::*;

use crate::oid::{is_null_seq, GitObjectId};

verus! {

/// A tree-entry file mode of the host store, reproduced bit-for-bit: the high
/// four bits carry the entry type, the low bits the permissions.
#[derive(Clone, Copy, Debug, PartialEq, Eq)]
pub struct FileMode {
    bits: u16,
}

impl FileMode {
    /// The raw mode bits.
    pub closed spec fn bits_spec(&self) -> u16 {
        self.bits
    }

    /// The type bits of the mode (its high four bits).
    pub open spec fn typ_spec(&self) -> u16 {
        self.bits_spec() & 0xf000u16
    }

    /// A link to another repository's commit (submodule-style), `0o160000`.
    pub fn gitlink() -> (r: Self)
        ensures
            r.bits_spec() == 0o160000u16,
    {
        FileMode { bits: 0o160000 }
    }

    /// A subdirectory (tree) entry, `0o040000`.
    pub fn directory() -> (r: Self)
        ensures
            r.bits_spec() == 0o040000u16,
    {
        FileMode { bits: 0o040000 }
    }

    /// A regular read-write file entry, `0o100644`.
    pub fn regular() -> (r: Self)
        ensures
            r.bits_spec() == 0o100644u16,
    {
        FileMode { bits: 0o100644 }
    }

    /// A regular executable file entry, `0o100755`.
    pub fn executable() -> (r: Self)
        ensures
            r.bits_spec() == 0o100755u16,
    {
        FileMode { bits: 0o100755 }
    }

    /// A symbolic-link entry, `0o120000`.
    pub fn symlink() -> (r: Self)
        ensures
            r.bits_spec() == 0o120000u16,
    {
        FileMode { bits: 0o120000 }
    }

    /// Wraps raw mode bits from persisted tree data.
    pub fn from_bits(bits: u16) -> (r: Self)
        ensures
            r.bits_spec() == bits,
    {
        FileMode { bits }
    }

    /// The raw mode bits.
    pub fn bits(&self) -> (r: u16)
        ensures
            r == self.bits_spec(),
    {
        self.bits
    }

    /// The type bits of the mode.
    pub fn typ(&self) -> (r: u16)
        ensures
            r == self.typ_spec(),
    {
        self.bits & 0xf000
    }
}

/// An identifier known (by its construction path) to reference a blob.
#[derive(Clone, Copy, Debug, PartialEq, Eq)]
pub struct BlobId {
    id: GitObjectId,
}

/// An identifier known (by its construction path) to reference a tree.
#[derive(Clone, Copy, Debug, PartialEq, Eq)]
pub struct TreeId {
    id: GitObjectId,
}

/// An identifier known (by its construction path) to reference a commit.
#[derive(Clone, Copy, Debug, PartialEq, Eq)]
pub struct CommitId {
    id: GitObjectId,
}

impl View for BlobId {
    type V = Seq<u8>;

    closed spec fn view(&self) -> Seq<u8> {
        self.id@
    }
}

impl View for TreeId {
    type V = Seq<u8>;

    closed spec fn view(&self) -> Seq<u8> {
        self.id@
    }
}

impl View for CommitId {
    type V = Seq<u8>;

    closed spec fn view(&self) -> Seq<u8> {
        self.id@
    }
}

impl BlobId {
    /// Brands without a runtime check: the caller vouches for the
    /// classification (used at boundaries where it was already verified).
    pub fn from_unchecked(id: GitObjectId) -> (r: Self)
        ensures
            r@ =~= id@,
    {
        BlobId { id }
    }

    /// The generic identifier; this direction never fails.
    pub fn to_object_id(&self) -> (r: GitObjectId)
        ensures
            r@ =~= self@,
    {
        self.id
    }

    /// The underlying digest bytes.
    pub fn as_raw_bytes(&self) -> (r: &[u8])
        ensures
            r@ =~= self@,
    {
        self.id.as_raw_bytes()
    }

    /// True iff every byte is zero.
    pub fn is_null(&self) -> (r: bool)
        ensures
            r == is_null_seq(self@),
    {
        self.id.is_null()
    }
}

impl TreeId {
    /// Brands without a runtime check: the caller vouches for the
    /// classification (used at boundaries where it was already verified).
    pub fn from_unchecked(id: GitObjectId) -> (r: Self)
        ensures
            r@ =~= id@,
    {
        TreeId { id }
    }

    /// The generic identifier; this direction never fails.
    pub fn to_object_id(&self) -> (r: GitObjectId)
        ensures
            r@ =~= self@,
    {
        self.id
    }

    /// The underlying digest bytes.
    pub fn as_raw_bytes(&self) -> (r: &[u8])
        ensures
            r@ =~= self@,
    {
        self.id.as_raw_bytes()
    }

    /// True iff every byte is zero.
    pub fn is_null(&self) -> (r: bool)
        ensures
            r == is_null_seq(self@),
    {
        self.id.is_null()
    }
}

impl CommitId {
    /// Brands without a runtime check: the caller vouches for the
    /// classification (used at boundaries where it was already verified).
    pub fn from_unchecked(id: GitObjectId) -> (r: Self)
        ensures
            r@ =~= id@,
    {
        CommitId { id }
    }

    /// The generic identifier; this direction never fails.
    pub fn to_object_id(&self) -> (r: GitObjectId)
        ensures
            r@ =~= self@,
    {
        self.id
    }

    /// The underlying digest bytes.
    pub fn as_raw_bytes(&self) -> (r: &[u8])
        ensures
            r@ =~= self@,
    {
        self.id.as_raw_bytes()
    }

    /// True iff every byte is zero.
    pub fn is_null(&self) -> (r: bool)
        ensures
            r == is_null_seq(self@),
    {
        self.id.is_null()
    }
}

/// A classified object reference: a digest together with the one of the three
/// kinds it denotes in the context it was referenced from. All construction
/// from a generic identifier goes through [`GitOid::from`], which needs a
/// file mode: the kind is a property of the reference, not of the bytes.
#[derive(Clone, Copy, Debug, PartialEq, Eq)]
pub enum GitOid {
    Blob(BlobId),
    Tree(TreeId),
    Commit(CommitId),
}

impl View for GitOid {
    type V = Seq<u8>;

    open spec fn view(&self) -> Seq<u8> {
        match self {
            GitOid::Blob(b) => b@,
            GitOid::Tree(t) => t@,
            GitOid::Commit(c) => c@,
        }
    }
}

impl GitOid {
    /// The reference denotes a blob.
    pub open spec fn is_blob_spec(&self) -> bool {
        self is Blob
    }

    /// The reference denotes a tree.
    pub open spec fn is_tree_spec(&self) -> bool {
        self is Tree
    }

    /// The reference denotes a commit.
    pub open spec fn is_commit_spec(&self) -> bool {
        self is Commit
    }

    /// The classification rule: a gitlink mode yields a commit reference, a
    /// directory mode a tree reference, and every other mode a blob reference.
    pub open spec fn classify_spec(oid: GitObjectId, mode: FileMode) -> GitOid {
        if mode.typ_spec() == 0o160000u16 {
            GitOid::Commit(CommitId::new_spec(oid))
        } else if mode.typ_spec() == 0o040000u16 {
            GitOid::Tree(TreeId::new_spec(oid))
        } else {
            GitOid::Blob(BlobId::new_spec(oid))
        }
    }

    /// Classifies a generic identifier under a file mode. Total and
    /// deterministic: the variant is a function of the mode's type bits and
    /// the digest bytes are carried over unchanged.
    pub fn from(oid: GitObjectId, mode: FileMode) -> (r: GitOid)
        ensures
            r == GitOid::classify_spec(oid, mode),
            r@ =~= oid@,
            r.is_commit_spec() <==> mode.typ_spec() == 0o160000u16,
            r.is_tree_spec() <==> mode.typ_spec() == 0o040000u16,
            r.is_blob_spec() <==> (mode.typ_spec() != 0o160000u16 && mode.typ_spec()
                != 0o040000u16),
    {
        let t = mode.typ();
        if t == 0o160000 {
            GitOid::Commit(CommitId { id: oid })
        } else if t == 0o040000 {
            GitOid::Tree(TreeId { id: oid })
        } else {
            GitOid::Blob(BlobId { id: oid })
        }
    }

    pub fn is_blob(&self) -> (r: bool)
        ensures
            r == self.is_blob_spec(),
    {
        matches!(self, GitOid::Blob(_))
    }

    pub fn is_tree(&self) -> (r: bool)
        ensures
            r == self.is_tree_spec(),
    {
        matches!(self, GitOid::Tree(_))
    }

    pub fn is_commit(&self) -> (r: bool)
        ensures
            r == self.is_commit_spec(),
    {
        matches!(self, GitOid::Commit(_))
    }

    /// The underlying digest, whatever the variant.
    pub fn as_raw_bytes(&self) -> (r: &[u8])
        ensures
            r@ =~= self@,
    {
        match self {
            GitOid::Blob(b) => b.as_raw_bytes(),
            GitOid::Tree(t) => t.as_raw_bytes(),
            GitOid::Commit(c) => c.as_raw_bytes(),
        }
    }

    /// The generic identifier; lossless and total, whatever the variant.
    pub fn to_object_id(&self) -> (r: GitObjectId)
        ensures
            r@ =~= self@,
    {
        match self {
            GitOid::Blob(b) => b.to_object_id(),
            GitOid::Tree(t) => t.to_object_id(),
            GitOid::Commit(c) => c.to_object_id(),
        }
    }

    /// The typed form, only when the reference denotes a blob.
    pub fn into_blob(self) -> (r: Option<BlobId>)
        ensures
            self.is_blob_spec() ==> (r matches Some(b) && b@ =~= self@),
            !self.is_blob_spec() ==> r is None,
    {
        match self {
            GitOid::Blob(b) => Some(b),
            _ => None,
        }
    }

    /// The typed form, only when the reference denotes a tree.
    pub fn into_tree(self) -> (r: Option<TreeId>)
        ensures
            self.is_tree_spec() ==> (r matches Some(t) && t@ =~= self@),
            !self.is_tree_spec() ==> r is None,
    {
        match self {
            GitOid::Tree(t) => Some(t),
            _ => None,
        }
    }

    /// The typed form, only when the reference denotes a commit.
    pub fn into_commit(self) -> (r: Option<CommitId>)
        ensures
            self.is_commit_spec() ==> (r matches Some(c) && c@ =~= self@),
            !self.is_commit_spec() ==> r is None,
    {
        match self {
            GitOid::Commit(c) => Some(c),
            _ => None,
        }
    }

    /// Equality with the generic form: raw-byte equality, the variant tag
    /// adding nothing beyond what the bytes determine.
    pub fn eq_object_id(&self, other: &GitObjectId) -> (r: bool)
        ensures
            r == (self@ =~= other@),
    {
        let own = self.to_object_id();
        own.eq_id(other)
    }

    /// Equality between two classified references: raw-byte equality.
    pub fn eq_oid(&self, other: &GitOid) -> (r: bool)
        ensures
            r == (self@ =~= other@),
    {
        let own = self.to_object_id();
        let theirs = other.to_object_id();
        own.eq_id(&theirs)
    }
}

impl BlobId {
    /// The branded value as a spec-level constructor.
    pub closed spec fn new_spec(id: GitObjectId) -> Self {
        BlobId { id }
    }
}

impl TreeId {
    /// The branded value as a spec-level constructor.
    pub closed spec fn new_spec(id: GitObjectId) -> Self {
        TreeId { id }
    }
}

impl CommitId {
    /// The branded value as a spec-level constructor.
    pub closed spec fn new_spec(id: GitObjectId) -> Self {
        CommitId { id }
    }
}

/// Classification is total and deterministic, and the three variant
/// predicates are mutually exclusive and exhaustive over any classified
/// reference.
pub proof fn lemma_classification_partition(o: GitOid)
    ensures
        o.is_blob_spec() || o.is_tree_spec() || o.is_commit_spec(),
        o.is_blob_spec() ==> !o.is_tree_spec() && !o.is_commit_spec(),
        o.is_tree_spec() ==> !o.is_blob_spec() && !o.is_commit_spec(),
        o.is_commit_spec() ==> !o.is_blob_spec() && !o.is_tree_spec(),
{
}

/// Classifying any digest under any mode never changes the digest, and the
/// resulting variant depends on the mode's type bits alone.
pub proof fn lemma_classify_preserves_bytes(oid: GitObjectId, mode: FileMode)
    ensures
        GitOid::classify_spec(oid, mode)@ =~= oid@,
        GitOid::classify_spec(oid, mode).is_commit_spec() <==> mode.typ_spec() == 0o160000u16,
        GitOid::classify_spec(oid, mode).is_tree_spec() <==> mode.typ_spec() == 0o040000u16,
{
}

/// Equality between a typed identifier, the generic identifier and the union
/// form holding the same raw bytes always holds, regardless of the declared
/// kind: every equality in this layer is raw-byte equality.
pub proof fn lemma_equality_across_forms(b: BlobId, t: TreeId, c: CommitId, g: GitObjectId)
    requires
        b@ =~= g@,
        t@ =~= g@,
        c@ =~= g@,
    ensures
        GitOid::Blob(b)@ =~= g@,
        GitOid::Tree(t)@ =~= g@,
        GitOid::Commit(c)@ =~= g@,
        b@ =~= t@,
        t@ =~= c@,
        GitOid::Blob(b)@ =~= GitOid::Tree(t)@,
        GitOid::Tree(t)@ =~= GitOid::Commit(c)@,
{
}

} // verus!
