//! Raw object identifiers: 20-byte digests with a null sentinel, hex text
//! forms, and abbreviated (prefix) forms.

use vstd::prelude::*;

verus! {

/// A malformed identifier input.
#[derive(Clone, Copy, Debug, PartialEq, Eq)]
pub enum IdError {
    /// The input has the wrong length: a raw form that is not 20 bytes, a hex
    /// form that is not 40 digits, or an abbreviation outside 4..=40 digits.
    InvalidLength,
    /// A character of a hex form is not a lowercase hexadecimal digit.
    InvalidHex,
}

/// The all-zero digest, the reserved "absent/unresolved" sentinel.
pub open spec fn null_oid_seq() -> Seq<u8> {
    Seq::new(20, |i: int| 0u8)
}

/// Every byte of `s` is zero.
pub open spec fn is_null_seq(s: Seq<u8>) -> bool {
    forall|i: int| 0 <= i < s.len() ==> s[i] == 0u8
}

/// `c` is an ASCII lowercase hexadecimal digit.
pub open spec fn is_hex_digit(c: u8) -> bool {
    (48 <= c <= 57) || (97 <= c <= 102)
}

/// The value of the hex digit `c` (meaningful when `is_hex_digit(c)`).
pub open spec fn hex_val(c: u8) -> u8 {
    if 48 <= c <= 57 {
        (c - 48) as u8
    } else {
        (c - 87) as u8
    }
}

/// The ASCII lowercase hex digit for `n` (meaningful when `n < 16`).
pub open spec fn hex_digit_of(n: u8) -> u8 {
    if n < 10 {
        (48 + n) as u8
    } else {
        (87 + n) as u8
    }
}

/// The `i`-th hex digit value of the byte sequence `s`: high nibble first.
pub open spec fn nibble(s: Seq<u8>, i: int) -> u8 {
    if i % 2 == 0 {
        s[i / 2] / 16
    } else {
        s[i / 2] % 16
    }
}

/// The lowercase hex rendering of `s`, two digits per byte.
pub open spec fn hex_seq(s: Seq<u8>) -> Seq<u8> {
    Seq::new(s.len() * 2, |i: int| hex_digit_of(nibble(s, i)))
}

/// The ASCII lowercase hex digit for `n < 16`.
pub(crate) fn hex_digit_byte(n: u8) -> (r: u8)
    requires
        n < 16,
    ensures
        r == hex_digit_of(n),
{
    if n < 10 {
        48 + n
    } else {
        87 + n
    }
}

/// A raw object identifier of the host (Git-style) store: a fixed 20-byte
/// digest, compared byte-wise, never mutated.
#[derive(Clone, Copy, Debug, PartialEq, Eq, PartialOrd, Ord)]
pub struct GitObjectId {
    bytes: [u8; 20],
}

impl View for GitObjectId {
    type V = Seq<u8>;

    closed spec fn view(&self) -> Seq<u8> {
        self.bytes@
    }
}

impl GitObjectId {
    /// The null (all-zero) identifier, meaning "absent/unresolved".
    pub fn null() -> (r: Self)
        ensures
            r@ =~= null_oid_seq(),
    {
        let r = GitObjectId { bytes: [0u8; 20] };
        proof {
            assert(r@ =~= null_oid_seq());
        }
        r
    }

    /// Wraps an exact 20-byte array.
    pub fn from_bytes(bytes: [u8; 20]) -> (r: Self)
        ensures
            r@ =~= bytes@,
    {
        GitObjectId { bytes }
    }

    /// Parses a raw byte slice; rejects any length other than 20.
    pub fn from_raw_bytes(b: &[u8]) -> (r: Result<Self, IdError>)
        ensures
            b@.len() == 20 ==> (r matches Ok(id) && id@ =~= b@),
            b@.len() != 20 ==> r == Err::<Self, IdError>(IdError::InvalidLength),
    {
        if b.len() != 20 {
            return Err(IdError::InvalidLength);
        }
        let mut bytes = [0u8; 20];
        let mut i: usize = 0;
        while i < 20
            invariant
                i <= 20,
                b@.len() == 20,
                forall|j: int| 0 <= j < i ==> bytes@[j] == b@[j],
            decreases 20 - i,
        {
            bytes[i] = b[i];
            i += 1;
        }
        let r = GitObjectId { bytes };
        proof {
            assert(r@ =~= b@);
        }
        Ok(r)
    }

    /// Carries a foreign-store identifier's bytes into this namespace's raw form.
    pub fn from_hg(h: &HgObjectId) -> (r: Self)
        ensures
            r@ =~= h@,
    {
        GitObjectId { bytes: h.bytes }
    }

    /// The underlying digest bytes.
    pub fn as_raw_bytes(&self) -> (r: &[u8])
        ensures
            r@ =~= self@,
    {
        self.bytes.as_slice()
    }

    /// True iff every byte is zero.
    pub fn is_null(&self) -> (r: bool)
        ensures
            r == is_null_seq(self@),
    {
        let mut i: usize = 0;
        while i < 20
            invariant
                i <= 20,
                forall|j: int| 0 <= j < i ==> self.bytes@[j] == 0u8,
            decreases 20 - i,
        {
            if self.bytes[i] != 0 {
                assert(self@[i as int] != 0u8);
                return false;
            }
            i += 1;
        }
        true
    }

    /// Byte-wise equality.
    pub fn eq_id(&self, other: &Self) -> (r: bool)
        ensures
            r == (self@ =~= other@),
    {
        let mut i: usize = 0;
        while i < 20
            invariant
                i <= 20,
                forall|j: int| 0 <= j < i ==> self.bytes@[j] == other.bytes@[j],
            decreases 20 - i,
        {
            if self.bytes[i] != other.bytes[i] {
                assert(self@[i as int] != other@[i as int]);
                return false;
            }
            i += 1;
        }
        assert(self@ =~= other@);
        true
    }

    /// The 40-digit lowercase hex rendering.
    pub fn to_hex(&self) -> (r: Vec<u8>)
        ensures
            r@ =~= hex_seq(self@),
    {
        let mut r: Vec<u8> = Vec::new();
        let mut i: usize = 0;
        while i < 20
            invariant
                i <= 20,
                r@.len() == 2 * i,
                forall|j: int| 0 <= j < 2 * i ==> r@[j] == hex_digit_of(nibble(self@, j)),
            decreases 20 - i,
        {
            let b = self.bytes[i];
            r.push(hex_digit_byte(b / 16));
            r.push(hex_digit_byte(b % 16));
            assert(nibble(self@, 2 * i as int) == b / 16);
            assert(nibble(self@, 2 * i as int + 1) == b % 16);
            i += 1;
        }
        assert(r@ =~= hex_seq(self@));
        r
    }

    /// Parses exactly 40 lowercase hex digits; never truncates or pads.
    pub fn from_hex(h: &[u8]) -> (r: Result<Self, IdError>)
        ensures
            h@.len() != 40 ==> r == Err::<Self, IdError>(IdError::InvalidLength),
            h@.len() == 40 && (exists|i: int| 0 <= i < 40 && !is_hex_digit(h@[i])) ==> r == Err::<
                Self,
                IdError,
            >(IdError::InvalidHex),
            h@.len() == 40 && (forall|i: int| 0 <= i < 40 ==> is_hex_digit(h@[i])) ==> (r matches Ok(
                id,
            ) && forall|i: int| 0 <= i < 40 ==> nibble(id@, i) == hex_val(h@[i])),
    {
        if h.len() != 40 {
            return Err(IdError::InvalidLength);
        }
        let mut bytes = [0u8; 20];
        let mut i: usize = 0;
        while i < 20
            invariant
                i <= 20,
                h@.len() == 40,
                forall|j: int| 0 <= j < 2 * i ==> is_hex_digit(h@[j]),
                forall|j: int| 0 <= j < 2 * i ==> nibble(bytes@, j) == hex_val(h@[j]),
            decreases 20 - i,
        {
            let hi = h[2 * i];
            let lo = h[2 * i + 1];
            let hi_ok = (48 <= hi && hi <= 57) || (97 <= hi && hi <= 102);
            let lo_ok = (48 <= lo && lo <= 57) || (97 <= lo && lo <= 102);
            if !hi_ok {
                assert(!is_hex_digit(h@[2 * i as int]));
                return Err(IdError::InvalidHex);
            }
            if !lo_ok {
                assert(!is_hex_digit(h@[2 * i as int + 1]));
                return Err(IdError::InvalidHex);
            }
            let hv = if hi <= 57 {
                hi - 48
            } else {
                hi - 87
            };
            let lv = if lo <= 57 {
                lo - 48
            } else {
                lo - 87
            };
            let b = hv * 16 + lv;
            let ghost prev_bytes: Seq<u8> = bytes@;
            bytes[i] = b;
            proof {
                assert(b / 16 == hv && b % 16 == lv) by (nonlinear_arith)
                    requires
                        hv < 16,
                        lv < 16,
                        b == hv * 16 + lv,
                ;
                assert(nibble(bytes@, 2 * i as int) == hv);
                assert(nibble(bytes@, 2 * i as int + 1) == lv);
                assert forall|j: int| 0 <= j < 2 * i implies nibble(bytes@, j) == hex_val(
                    h@[j],
                ) by {
                    assert(j / 2 < i);
                    assert(bytes@[j / 2] == prev_bytes[j / 2]);
                    assert(nibble(prev_bytes, j) == hex_val(h@[j]));
                }
            }
            i += 1;
        }
        let id = GitObjectId { bytes };
        Ok(id)
    }
}

/// A raw object identifier of the foreign (Mercurial-style) store: the same
/// 20-byte digest shape as [`GitObjectId`], in a distinct namespace.
#[derive(Clone, Copy, Debug, PartialEq, Eq, PartialOrd, Ord)]
pub struct HgObjectId {
    bytes: [u8; 20],
}

impl View for HgObjectId {
    type V = Seq<u8>;

    closed spec fn view(&self) -> Seq<u8> {
        self.bytes@
    }
}

impl HgObjectId {
    /// The null (all-zero) identifier.
    pub fn null() -> (r: Self)
        ensures
            r@ =~= null_oid_seq(),
    {
        let r = HgObjectId { bytes: [0u8; 20] };
        proof {
            assert(r@ =~= null_oid_seq());
        }
        r
    }

    /// Wraps an exact 20-byte array.
    pub fn from_bytes(bytes: [u8; 20]) -> (r: Self)
        ensures
            r@ =~= bytes@,
    {
        HgObjectId { bytes }
    }

    /// Parses a raw byte slice; rejects any length other than 20.
    pub fn from_raw_bytes(b: &[u8]) -> (r: Result<Self, IdError>)
        ensures
            b@.len() == 20 ==> (r matches Ok(id) && id@ =~= b@),
            b@.len() != 20 ==> r == Err::<Self, IdError>(IdError::InvalidLength),
    {
        match GitObjectId::from_raw_bytes(b) {
            Ok(g) => Ok(HgObjectId { bytes: g.bytes }),
            Err(e) => Err(e),
        }
    }

    /// Carries a host-store identifier's bytes into this namespace's raw form.
    pub fn from_git(g: &GitObjectId) -> (r: Self)
        ensures
            r@ =~= g@,
    {
        HgObjectId { bytes: g.bytes }
    }

    /// The underlying digest bytes.
    pub fn as_raw_bytes(&self) -> (r: &[u8])
        ensures
            r@ =~= self@,
    {
        self.bytes.as_slice()
    }

    /// True iff every byte is zero.
    pub fn is_null(&self) -> (r: bool)
        ensures
            r == is_null_seq(self@),
    {
        GitObjectId::from_hg(self).is_null()
    }

    /// Byte-wise equality.
    pub fn eq_id(&self, other: &Self) -> (r: bool)
        ensures
            r == (self@ =~= other@),
    {
        let a = GitObjectId::from_hg(self);
        let b = GitObjectId::from_hg(other);
        let r = a.eq_id(&b);
        proof {
            if r {
                assert(self@ =~= other@);
            } else {
                assert(!(self@ =~= other@));
            }
        }
        r
    }
}

/// An abbreviated identifier: a declared prefix of 4..=40 hex digits over a
/// foreign-store identifier. Only the leading `hex_len` digits are
/// meaningful; trailing bytes are not compared.
#[derive(Clone, Copy, Debug)]
pub struct Abbrev {
    id: HgObjectId,
    hex_len: usize,
}

impl Abbrev {
    /// The declared prefix length is within the allowed digit range.
    pub closed spec fn wf(&self) -> bool {
        4 <= self.hex_len <= 40
    }

    /// The digest bytes carrying the prefix.
    pub closed spec fn id_seq(&self) -> Seq<u8> {
        self.id@
    }

    /// The declared significant prefix length, in hex digits.
    pub closed spec fn len_spec(&self) -> int {
        self.hex_len as int
    }

    /// The declared significant prefix length, in hex digits.
    pub fn len(&self) -> (r: usize)
        ensures
            r == self.len_spec(),
    {
        self.hex_len
    }

    /// The identifier whose leading nibbles carry the prefix.
    pub fn as_object_id(&self) -> (r: &HgObjectId)
        ensures
            r@ =~= self.id_seq(),
    {
        &self.id
    }

    /// Builds an abbreviation from a full identifier and a digit count.
    pub fn from_id(id: HgObjectId, hex_len: usize) -> (r: Result<Self, IdError>)
        ensures
            4 <= hex_len <= 40 ==> (r matches Ok(a) && a.wf() && a.id_seq() =~= id@
                && a.len_spec() == hex_len),
            !(4 <= hex_len <= 40) ==> r == Err::<Self, IdError>(IdError::InvalidLength),
    {
        if hex_len < 4 || hex_len > 40 {
            return Err(IdError::InvalidLength);
        }
        Ok(Abbrev { id, hex_len })
    }

    /// Parses 4..=40 lowercase hex digits into a prefix; rejects other lengths
    /// and non-hex characters, never truncating or padding.
    pub fn from_hex(h: &[u8]) -> (r: Result<Self, IdError>)
        ensures
            !(4 <= h@.len() <= 40) ==> r == Err::<Self, IdError>(IdError::InvalidLength),
            4 <= h@.len() <= 40 && (exists|i: int| 0 <= i < h@.len() && !is_hex_digit(h@[i]))
                ==> r == Err::<Self, IdError>(IdError::InvalidHex),
            4 <= h@.len() <= 40 && (forall|i: int| 0 <= i < h@.len() ==> is_hex_digit(h@[i])) ==> (
            r matches Ok(a) && a.wf() && a.len_spec() == h@.len() && forall|i: int|
                0 <= i < h@.len() ==> nibble(a.id_seq(), i) == hex_val(h@[i])),
    {
        if h.len() < 4 || h.len() > 40 {
            return Err(IdError::InvalidLength);
        }
        let mut bytes = [0u8; 20];
        let mut i: usize = 0;
        while i < h.len()
            invariant
                i <= h@.len(),
                4 <= h@.len() <= 40,
                forall|j: int| 0 <= j < i ==> is_hex_digit(h@[j]),
                forall|j: int| 0 <= j < i ==> nibble(bytes@, j) == hex_val(h@[j]),
                forall|k: int| (i + 1) / 2 <= k < 20 ==> bytes@[k] == 0u8,
                i % 2 == 1 ==> bytes@[i as int / 2] % 16 == 0,
            decreases h@.len() - i,
        {
            let c = h[i];
            let ok = (48 <= c && c <= 57) || (97 <= c && c <= 102);
            if !ok {
                assert(!is_hex_digit(h@[i as int]));
                return Err(IdError::InvalidHex);
            }
            let v = if c <= 57 {
                c - 48
            } else {
                c - 87
            };
            let k = i / 2;
            let prev = bytes[k];
            let ghost prev_bytes: Seq<u8> = bytes@;
            if i % 2 == 0 {
                assert(prev == 0);
                let b = v * 16;
                bytes[k] = b;
                proof {
                    assert(b / 16 == v && b % 16 == 0) by (nonlinear_arith)
                        requires
                            v < 16,
                            b == v * 16,
                    ;
                    assert(nibble(bytes@, i as int) == v);
                    assert forall|j: int| 0 <= j < i implies nibble(bytes@, j) == hex_val(
                        h@[j],
                    ) by {
                        assert(j / 2 < k as int);
                        assert(bytes@[j / 2] == prev_bytes[j / 2]);
                        assert(nibble(prev_bytes, j) == hex_val(h@[j]));
                    }
                }
            } else {
                proof {
                    assert(nibble(prev_bytes, i as int - 1) == hex_val(h@[i as int - 1]));
                    assert(prev % 16 == 0 && prev / 16 == hex_val(h@[i as int - 1]));
                }
                let b = prev + v;
                bytes[k] = b;
                proof {
                    assert(b / 16 == prev / 16 && b % 16 == v) by (nonlinear_arith)
                        requires
                            v < 16,
                            prev % 16 == 0,
                            b == prev + v,
                            prev <= 255,
                    ;
                    assert(nibble(bytes@, i as int) == v);
                    assert forall|j: int| 0 <= j < i implies nibble(bytes@, j) == hex_val(
                        h@[j],
                    ) by {
                        assert(j / 2 <= k as int);
                        if j / 2 < k as int {
                            assert(bytes@[j / 2] == prev_bytes[j / 2]);
                            assert(nibble(prev_bytes, j) == hex_val(h@[j]));
                        } else {
                            assert(j == i - 1);
                            assert(nibble(bytes@, j) == b / 16);
                        }
                    }
                }
            }
            i += 1;
        }
        let a = Abbrev { id: HgObjectId { bytes }, hex_len: h.len() };
        Ok(a)
    }
}

/// Every host-store identifier views as exactly 20 bytes.
pub broadcast proof fn lemma_git_oid_len(id: GitObjectId)
    ensures
        (#[trigger] id@).len() == 20,
{
}

/// Every foreign-store identifier views as exactly 20 bytes.
pub broadcast proof fn lemma_hg_oid_len(id: HgObjectId)
    ensures
        (#[trigger] id@).len() == 20,
{
}

/// A well-formed abbreviation carries 20 digest bytes and a declared length
/// within the allowed digit range.
pub proof fn lemma_abbrev_len(a: Abbrev)
    requires
        a.wf(),
    ensures
        a.id_seq().len() == 20,
        4 <= a.len_spec() <= 40,
{
}

/// The foreign-store identifier in its plain fixed-layout form, as it crosses
/// module boundaries: exactly the 20 digest bytes.
#[allow(non_camel_case_types)]
#[derive(Clone, Copy, Debug)]
pub struct hg_object_id {
    bytes: [u8; 20],
}

impl View for hg_object_id {
    type V = Seq<u8>;

    closed spec fn view(&self) -> Seq<u8> {
        self.bytes@
    }
}

impl Default for hg_object_id {
    /// The null (all-zero) value.
    fn default() -> (r: Self)
        ensures
            r@ =~= null_oid_seq(),
    {
        let r = hg_object_id { bytes: [0u8; 20] };
        proof {
            assert(r@ =~= null_oid_seq());
        }
        r
    }
}

impl hg_object_id {
    /// Wraps a foreign-store identifier into the fixed-layout form.
    pub fn from_oid(oid: &HgObjectId) -> (r: Self)
        ensures
            r@ =~= oid@,
    {
        hg_object_id { bytes: oid.bytes }
    }

    /// Reads the fixed-layout form back as a foreign-store identifier.
    pub fn to_oid(&self) -> (r: HgObjectId)
        ensures
            r@ =~= self@,
    {
        HgObjectId { bytes: self.bytes }
    }
}

} // verus!
