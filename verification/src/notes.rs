//! The notes-tree mapping store: a persistent key→value index over 20-byte
//! identifiers with lazy initialization, abbreviated lookup, dirty tracking
//! and snapshot commits.

use vstd::prelude::*;

use crate::git::FileMode;
use crate::objects::{commit_id_of, empty_tree_oid, spec_commit_id, spec_tree_id, tree_id_of};
use crate::oid::{hg_object_id, is_null_seq, nibble, null_oid_seq, Abbrev, GitObjectId, HgObjectId};

verus! {

broadcast use crate::oid::lemma_git_oid_len, crate::oid::lemma_hg_oid_len;

/// One mapping-store entry: a key identifier and the value identifier its
/// note points at.
#[derive(Clone, Copy, Debug)]
pub struct NoteEntry {
    pub key: GitObjectId,
    pub value: GitObjectId,
}

impl View for NoteEntry {
    type V = (Seq<u8>, Seq<u8>);

    open spec fn view(&self) -> (Seq<u8>, Seq<u8>) {
        (self.key@, self.value@)
    }
}

/// The store's contents as key/value byte-sequence pairs.
pub open spec fn entries_view(v: Seq<NoteEntry>) -> Seq<(Seq<u8>, Seq<u8>)> {
    v.map_values(|e: NoteEntry| e@)
}

/// No key occurs twice.
pub open spec fn unique_keys(s: Seq<(Seq<u8>, Seq<u8>)>) -> bool {
    forall|i: int, j: int| 0 <= i < j < s.len() ==> s[i].0 != s[j].0
}

/// The value mapped to `k`: the first entry with that key, if any.
pub open spec fn spec_lookup(s: Seq<(Seq<u8>, Seq<u8>)>, k: Seq<u8>) -> Option<Seq<u8>>
    decreases s.len(),
{
    if s.len() == 0 {
        None
    } else if s[0].0 == k {
        Some(s[0].1)
    } else {
        spec_lookup(s.drop_first(), k)
    }
}

/// The store after `add(k, v)`: unchanged when `k` is already mapped (the
/// fixed "ignore new, keep existing" collision policy), else extended.
pub open spec fn spec_add(s: Seq<(Seq<u8>, Seq<u8>)>, k: Seq<u8>, v: Seq<u8>) -> Seq<
    (Seq<u8>, Seq<u8>),
> {
    if spec_lookup(s, k) is Some {
        s
    } else {
        s.push((k, v))
    }
}

/// The store after `remove(k)`: every entry keyed `k` is gone, order kept.
pub open spec fn spec_remove(s: Seq<(Seq<u8>, Seq<u8>)>, k: Seq<u8>) -> Seq<(Seq<u8>, Seq<u8>)>
    decreases s.len(),
{
    if s.len() == 0 {
        Seq::empty()
    } else {
        let rest = spec_remove(s.drop_last(), k);
        if s.last().0 == k {
            rest
        } else {
            rest.push(s.last())
        }
    }
}

/// The first `hex_len` hex digits of `a` agree with those of `k`.
pub open spec fn abbrev_matches(a: Seq<u8>, hex_len: int, k: Seq<u8>) -> bool {
    forall|i: int| 0 <= i < hex_len ==> nibble(a, i) == nibble(k, i)
}

/// The value of the first entry (in the store's entry order) whose key the
/// abbreviation matches, if any.
pub open spec fn spec_lookup_abbrev(
    s: Seq<(Seq<u8>, Seq<u8>)>,
    a: Seq<u8>,
    hex_len: int,
) -> Option<Seq<u8>>
    decreases s.len(),
{
    if s.len() == 0 {
        None
    } else if abbrev_matches(a, hex_len, s[0].0) {
        Some(s[0].1)
    } else {
        spec_lookup_abbrev(s.drop_first(), a, hex_len)
    }
}

/// A lookup finds the first entry holding the key.
pub proof fn lemma_lookup_first_index(s: Seq<(Seq<u8>, Seq<u8>)>, k: Seq<u8>, i: int)
    requires
        0 <= i < s.len(),
        s[i].0 == k,
        forall|j: int| 0 <= j < i ==> s[j].0 != k,
    ensures
        spec_lookup(s, k) == Some(s[i].1),
    decreases s.len(),
{
    if i > 0 {
        lemma_lookup_first_index(s.drop_first(), k, i - 1);
    }
}

/// A lookup misses iff no entry holds the key.
pub proof fn lemma_lookup_no_match(s: Seq<(Seq<u8>, Seq<u8>)>, k: Seq<u8>)
    requires
        forall|j: int| 0 <= j < s.len() ==> s[j].0 != k,
    ensures
        spec_lookup(s, k) is None,
    decreases s.len(),
{
    if s.len() > 0 {
        lemma_lookup_no_match(s.drop_first(), k);
    }
}

/// Appending one entry changes a lookup only where nothing was found before.
pub proof fn lemma_lookup_push(s: Seq<(Seq<u8>, Seq<u8>)>, e: (Seq<u8>, Seq<u8>), k: Seq<u8>)
    ensures
        spec_lookup(s.push(e), k) == (if spec_lookup(s, k) is Some {
            spec_lookup(s, k)
        } else if e.0 == k {
            Some(e.1)
        } else {
            None
        }),
    decreases s.len(),
{
    if s.len() == 0 {
        assert(s.push(e).len() == 1);
        assert(s.push(e)[0] == e);
        assert(s.push(e).drop_first() =~= Seq::<(Seq<u8>, Seq<u8>)>::empty());
        assert(spec_lookup(Seq::<(Seq<u8>, Seq<u8>)>::empty(), k) is None);
        if e.0 == k {
            assert(spec_lookup(s.push(e), k) == Some(e.1));
        } else {
            assert(spec_lookup(s.push(e), k) == spec_lookup(s.push(e).drop_first(), k));
        }
        assert(spec_lookup(s, k) is None);
    } else {
        assert(s.push(e)[0] == s[0]);
        assert(s.push(e).drop_first() =~= s.drop_first().push(e));
        lemma_lookup_push(s.drop_first(), e, k);
        if s[0].0 == k {
            assert(spec_lookup(s.push(e), k) == Some(s[0].1));
            assert(spec_lookup(s, k) == Some(s[0].1));
        } else {
            assert(spec_lookup(s.push(e), k) == spec_lookup(s.drop_first().push(e), k));
            assert(spec_lookup(s, k) == spec_lookup(s.drop_first(), k));
        }
    }
}

/// Abbreviated lookup finds the first entry the abbreviation matches.
pub proof fn lemma_lookup_abbrev_first_index(
    s: Seq<(Seq<u8>, Seq<u8>)>,
    a: Seq<u8>,
    hex_len: int,
    i: int,
)
    requires
        0 <= i < s.len(),
        abbrev_matches(a, hex_len, s[i].0),
        forall|j: int| 0 <= j < i ==> !abbrev_matches(a, hex_len, s[j].0),
    ensures
        spec_lookup_abbrev(s, a, hex_len) == Some(s[i].1),
    decreases s.len(),
{
    if i > 0 {
        lemma_lookup_abbrev_first_index(s.drop_first(), a, hex_len, i - 1);
    }
}

/// Abbreviated lookup misses iff the abbreviation matches no key.
pub proof fn lemma_lookup_abbrev_no_match(s: Seq<(Seq<u8>, Seq<u8>)>, a: Seq<u8>, hex_len: int)
    requires
        forall|j: int| 0 <= j < s.len() ==> !abbrev_matches(a, hex_len, s[j].0),
    ensures
        spec_lookup_abbrev(s, a, hex_len) is None,
    decreases s.len(),
{
    if s.len() > 0 {
        lemma_lookup_abbrev_no_match(s.drop_first(), a, hex_len);
    }
}

/// Removal keeps keys unique and introduces no entry that was not present.
pub proof fn lemma_remove_keys(s: Seq<(Seq<u8>, Seq<u8>)>, k: Seq<u8>)
    requires
        unique_keys(s),
    ensures
        unique_keys(spec_remove(s, k)),
        forall|a: int|
            0 <= a < spec_remove(s, k).len() ==> exists|j: int|
                0 <= j < s.len() && #[trigger] spec_remove(s, k)[a] == s[j],
    decreases s.len(),
{
    if s.len() > 0 {
        let pre = s.drop_last();
        assert(unique_keys(pre));
        lemma_remove_keys(pre, k);
        let rest = spec_remove(pre, k);
        assert(forall|a: int|
            0 <= a < rest.len() ==> exists|j: int| 0 <= j < pre.len() && #[trigger] rest[a]
                == pre[j]);
        if s.last().0 != k {
            let whole = rest.push(s.last());
            assert forall|a: int, b: int| 0 <= a < b < whole.len() implies whole[a].0
                != whole[b].0 by {
                if b < whole.len() - 1 {
                    assert(rest[a].0 != rest[b].0);
                } else {
                    let j = choose|j: int| 0 <= j < pre.len() && rest[a] == pre[j];
                    assert(s[j].0 != s[s.len() - 1].0);
                }
            }
            assert forall|a: int| 0 <= a < whole.len() implies exists|j: int|
                0 <= j < s.len() && #[trigger] whole[a] == s[j] by {
                if a < whole.len() - 1 {
                    let j = choose|j: int| 0 <= j < pre.len() && rest[a] == pre[j];
                    assert(whole[a] == s[j]);
                } else {
                    assert(whole[a] == s[s.len() - 1]);
                }
            }
        }
    }
}

/// Every key of an entry sequence built from store entries is 20 bytes, as is
/// every value.
pub proof fn lemma_entries_view_lens(v: Seq<NoteEntry>)
    ensures
        forall|i: int|
            0 <= i < entries_view(v).len() ==> entries_view(v)[i].0.len() == 20 && entries_view(
                v,
            )[i].1.len() == 20,
{
}

/// The mapping store. One instance serves one namespace; it starts
/// uninitialized and loads lazily on first use: from the entries its
/// reference root named at construction, or empty when there was no root or
/// the namespace is flagged to start empty. Mutations mark it dirty; an
/// explicit snapshot persists it (see [`store_metadata_notes`]).
#[allow(non_camel_case_types)]
pub struct cinnabar_notes_tree {
    initialized: bool,
    dirty: bool,
    entries: Vec<NoteEntry>,
    root: GitObjectId,
    loaded: Vec<NoteEntry>,
    init_root: GitObjectId,
    start_empty: bool,
    mode: FileMode,
}

impl cinnabar_notes_tree {
    /// Lazy initialization has run.
    pub closed spec fn is_initialized(&self) -> bool {
        self.initialized
    }

    /// Mutations are pending that no snapshot has persisted.
    pub closed spec fn is_dirty(&self) -> bool {
        self.dirty
    }

    /// The current in-memory contents.
    pub closed spec fn entries_seq(&self) -> Seq<(Seq<u8>, Seq<u8>)> {
        entries_view(self.entries@)
    }

    /// The identifier of the persisted root this state reflects (null when
    /// none exists).
    pub closed spec fn root_seq(&self) -> Seq<u8> {
        self.root@
    }

    /// The contents lazy initialization would install.
    pub closed spec fn loaded_seq(&self) -> Seq<(Seq<u8>, Seq<u8>)> {
        entries_view(self.loaded@)
    }

    /// The reference root given at construction.
    pub closed spec fn init_root_seq(&self) -> Seq<u8> {
        self.init_root@
    }

    /// The namespace is flagged to start empty regardless of a stale root.
    pub closed spec fn start_empty_flag(&self) -> bool {
        self.start_empty
    }

    /// The file mode snapshots record for this namespace's tree entries.
    pub closed spec fn mode_bits(&self) -> u16 {
        self.mode.bits_spec()
    }

    /// Well-formedness: keys are unique, and before initialization nothing
    /// is loaded, dirty or rooted.
    pub open spec fn wf(&self) -> bool {
        &&& unique_keys(self.entries_seq())
        &&& unique_keys(self.loaded_seq())
        &&& (!self.is_initialized() ==> !self.is_dirty() && self.entries_seq().len() == 0
            && is_null_seq(self.root_seq()))
    }

    /// Lazy initialization will install the empty store.
    pub open spec fn starts_empty(&self) -> bool {
        self.start_empty_flag() || is_null_seq(self.init_root_seq())
    }

    /// The contents after lazy initialization.
    pub open spec fn post_init_entries(&self) -> Seq<(Seq<u8>, Seq<u8>)> {
        if self.is_initialized() {
            self.entries_seq()
        } else if self.starts_empty() {
            Seq::empty()
        } else {
            self.loaded_seq()
        }
    }

    /// The root after lazy initialization.
    pub open spec fn post_init_root(&self) -> Seq<u8> {
        if self.is_initialized() || self.starts_empty() {
            self.root_seq()
        } else {
            self.init_root_seq()
        }
    }

    /// `post` is `pre` after lazy initialization and nothing else.
    pub open spec fn is_init_of(post: Self, pre: Self) -> bool {
        &&& post.is_initialized()
        &&& post.is_dirty() == (pre.is_initialized() && pre.is_dirty())
        &&& post.entries_seq() == pre.post_init_entries()
        &&& post.root_seq() == pre.post_init_root()
        &&& post.loaded_seq() == pre.loaded_seq()
        &&& post.init_root_seq() == pre.init_root_seq()
        &&& post.start_empty_flag() == pre.start_empty_flag()
        &&& post.mode_bits() == pre.mode_bits()
    }

    /// The configuration fields `post` keeps from `pre`.
    pub open spec fn same_config(post: Self, pre: Self) -> bool {
        &&& post.loaded_seq() == pre.loaded_seq()
        &&& post.init_root_seq() == pre.init_root_seq()
        &&& post.start_empty_flag() == pre.start_empty_flag()
        &&& post.mode_bits() == pre.mode_bits()
    }

    /// A store wired to its namespace: `init_root` is what the associated
    /// reference points at (null when it points nowhere), `loaded` the
    /// entries persisted under that root as the external resolver reads
    /// them, `start_empty` the flag forcing an empty start, and `mode` the
    /// namespace's tree-entry file mode.
    pub fn new(
        init_root: GitObjectId,
        loaded: Vec<NoteEntry>,
        start_empty: bool,
        mode: FileMode,
    ) -> (r: Self)
        requires
            unique_keys(entries_view(loaded@)),
        ensures
            r.wf(),
            !r.is_initialized(),
            !r.is_dirty(),
            r.entries_seq().len() == 0,
            r.loaded_seq() == entries_view(loaded@),
            r.init_root_seq() == init_root@,
            r.start_empty_flag() == start_empty,
            r.mode_bits() == mode.bits_spec(),
    {
        let r = cinnabar_notes_tree {
            initialized: false,
            dirty: false,
            entries: Vec::new(),
            root: GitObjectId::null(),
            loaded,
            init_root,
            start_empty,
            mode,
        };
        proof {
            assert(r.entries_seq() =~= Seq::<(Seq<u8>, Seq<u8>)>::empty());
        }
        r
    }

    /// Runs lazy initialization if it has not run.
    fn ensure_init(&mut self)
        requires
            old(self).wf(),
        ensures
            Self::is_init_of(*final(self), *old(self)),
            final(self).wf(),
    {
        if !self.initialized {
            if self.start_empty || self.init_root.is_null() {
                self.entries = Vec::new();
                proof {
                    assert(self.entries_seq() =~= Seq::<(Seq<u8>, Seq<u8>)>::empty());
                }
            } else {
                self.entries = copy_entries(&self.loaded);
                proof {
                    assert(self.entries_seq() =~= self.loaded_seq());
                }
                self.root = self.init_root;
            }
            self.initialized = true;
        }
    }

    /// Returns the value mapped to `key`, or absent; absence is not a
    /// failure. Triggers lazy initialization.
    pub fn get_note(&mut self, key: &GitObjectId) -> (r: Option<GitObjectId>)
        requires
            old(self).wf(),
        ensures
            Self::is_init_of(*final(self), *old(self)),
            final(self).wf(),
            opt_id_view(r) == spec_lookup(old(self).post_init_entries(), key@),
    {
        self.ensure_init();
        let ghost s = self.entries_seq();
        match find_key(&self.entries, key) {
            Some(i) => {
                proof {
                    lemma_lookup_first_index(s, key@, i as int);
                }
                Some(self.entries[i].value)
            },
            None => {
                proof {
                    lemma_lookup_no_match(s, key@);
                }
                None
            },
        }
    }

    /// Inserts the mapping when `key` is fresh; a key already mapped keeps
    /// its existing value (the fixed "ignore new" collision policy). Marks
    /// the store dirty. Triggers lazy initialization.
    pub fn add_note(&mut self, key: &GitObjectId, value: &GitObjectId)
        requires
            old(self).wf(),
        ensures
            final(self).wf(),
            final(self).is_initialized(),
            final(self).is_dirty(),
            final(self).entries_seq() == spec_add(
                old(self).post_init_entries(),
                key@,
                value@,
            ),
            final(self).root_seq() == old(self).post_init_root(),
            Self::same_config(*final(self), *old(self)),
    {
        self.ensure_init();
        let ghost s = self.entries_seq();
        match find_key(&self.entries, key) {
            Some(i) => {
                proof {
                    lemma_lookup_first_index(s, key@, i as int);
                    assert(spec_add(s, key@, value@) == s);
                }
            },
            None => {
                proof {
                    lemma_lookup_no_match(s, key@);
                }
                self.entries.push(NoteEntry { key: *key, value: *value });
                proof {
                    assert(self.entries_seq() =~= s.push((key@, value@)));
                    assert(unique_keys(self.entries_seq()));
                }
            },
        }
        self.dirty = true;
    }

    /// Deletes the mapping if present; no error if absent. Marks the store
    /// dirty either way. Triggers lazy initialization.
    pub fn remove_note(&mut self, key: &GitObjectId)
        requires
            old(self).wf(),
        ensures
            final(self).wf(),
            final(self).is_initialized(),
            final(self).is_dirty(),
            final(self).entries_seq() == spec_remove(old(self).post_init_entries(), key@),
            final(self).root_seq() == old(self).post_init_root(),
            Self::same_config(*final(self), *old(self)),
    {
        self.ensure_init();
        let ghost s = self.entries_seq();
        let mut out: Vec<NoteEntry> = Vec::new();
        let mut i: usize = 0;
        while i < self.entries.len()
            invariant
                i <= self.entries@.len(),
                s == entries_view(self.entries@),
                entries_view(out@) =~= spec_remove(s.take(i as int), key@),
            decreases self.entries@.len() - i,
        {
            let ghost pre_out = entries_view(out@);
            let e = self.entries[i];
            let keep = !e.key.eq_id(key);
            if keep {
                out.push(e);
            }
            proof {
                assert(s.take(i as int + 1).drop_last() =~= s.take(i as int));
                assert(s.take(i as int + 1).last() == s[i as int]);
                if keep {
                    assert(entries_view(out@) =~= pre_out.push((e.key@, e.value@)));
                }
                assert(entries_view(out@) =~= spec_remove(s.take(i as int + 1), key@));
            }
            i += 1;
        }
        proof {
            assert(s.take(s.len() as int) =~= s);
            lemma_remove_keys(s, key@);
        }
        self.entries = out;
        self.dirty = true;
    }

    /// Resolves an abbreviated key: the value of the first entry in the
    /// store's entry order whose key starts with the declared prefix, or
    /// absent when no key matches. With a full-length prefix this is exactly
    /// `get_note`. Triggers lazy initialization.
    pub fn get_note_abbrev(&mut self, oid: &Abbrev) -> (r: Option<GitObjectId>)
        requires
            old(self).wf(),
            oid.wf(),
        ensures
            Self::is_init_of(*final(self), *old(self)),
            final(self).wf(),
            opt_id_view(r) == spec_lookup_abbrev(
                old(self).post_init_entries(),
                oid.id_seq(),
                oid.len_spec(),
            ),
    {
        self.ensure_init();
        let ghost s = self.entries_seq();
        match find_abbrev(&self.entries, oid) {
            Some(i) => {
                proof {
                    lemma_lookup_abbrev_first_index(s, oid.id_seq(), oid.len_spec(), i as int);
                }
                Some(self.entries[i].value)
            },
            None => {
                proof {
                    lemma_lookup_abbrev_no_match(s, oid.id_seq(), oid.len_spec());
                }
                None
            },
        }
    }

    /// The current entries, in the store's internal order: a finite one-shot
    /// traversal taken as a snapshot. Triggers lazy initialization.
    pub fn for_each(&mut self) -> (r: Vec<NoteEntry>)
        requires
            old(self).wf(),
        ensures
            Self::is_init_of(*final(self), *old(self)),
            final(self).wf(),
            entries_view(r@) == old(self).post_init_entries(),
    {
        self.ensure_init();
        let r = copy_entries(&self.entries);
        proof {
            assert(entries_view(r@) =~= self.entries_seq());
        }
        r
    }

    /// Releases the initialized state; safe (a no-op) on an uninitialized
    /// store; the last operation of a session.
    pub fn done(&mut self)
        ensures
            final(self).wf(),
            !final(self).is_initialized(),
            !final(self).is_dirty(),
            final(self).entries_seq().len() == 0,
    {
        self.initialized = false;
        self.dirty = false;
        self.entries = Vec::new();
        self.loaded = Vec::new();
        self.root = GitObjectId::null();
        proof {
            assert(self.entries_seq() =~= Seq::<(Seq<u8>, Seq<u8>)>::empty());
            assert(self.loaded_seq() =~= Seq::<(Seq<u8>, Seq<u8>)>::empty());
        }
    }

    /// The identifier a snapshot of state `t` under fallback `reference`
    /// returns: with pending mutations, the snapshot commit naming the
    /// serialized tree (the well-known empty tree when nothing is mapped),
    /// except that an empty store that never had a root yields the null "no
    /// metadata" sentinel; with nothing dirty, the current root, or the
    /// fallback verbatim when no root ever existed.
    pub open spec fn spec_flush_result(t: Self, reference: Seq<u8>) -> Seq<u8> {
        if t.is_dirty() {
            if t.entries_seq().len() == 0 && is_null_seq(t.root_seq()) {
                null_oid_seq()
            } else {
                spec_commit_id(spec_tree_id(t.entries_seq(), t.mode_bits()))
            }
        } else {
            if !is_null_seq(t.root_seq()) {
                t.root_seq()
            } else {
                reference
            }
        }
    }

    /// The root after a snapshot of state `t`.
    pub open spec fn spec_flush_root(t: Self) -> Seq<u8> {
        if t.is_dirty() {
            if t.entries_seq().len() == 0 && is_null_seq(t.root_seq()) {
                t.root_seq()
            } else {
                spec_commit_id(spec_tree_id(t.entries_seq(), t.mode_bits()))
            }
        } else {
            t.root_seq()
        }
    }
}

/// The payload views of an optional identifier.
pub open spec fn opt_id_view(r: Option<GitObjectId>) -> Option<Seq<u8>> {
    match r {
        Some(g) => Some(g@),
        None => None,
    }
}

/// Copies the entry vector (entries are plain value pairs).
fn copy_entries(v: &Vec<NoteEntry>) -> (r: Vec<NoteEntry>)
    ensures
        r@ =~= v@,
{
    let mut r: Vec<NoteEntry> = Vec::new();
    let mut i: usize = 0;
    while i < v.len()
        invariant
            i <= v@.len(),
            r@ =~= v@.take(i as int),
        decreases v@.len() - i,
    {
        r.push(v[i]);
        assert(r@ =~= v@.take(i as int + 1));
        i += 1;
    }
    assert(v@.take(v@.len() as int) =~= v@);
    r
}

/// The index of the first entry keyed exactly `key`, if any.
fn find_key(entries: &Vec<NoteEntry>, key: &GitObjectId) -> (r: Option<usize>)
    ensures
        match r {
            Some(i) => i < entries@.len() && entries_view(entries@)[i as int].0 == key@ && (
            forall|j: int| 0 <= j < i ==> entries_view(entries@)[j].0 != key@),
            None => forall|j: int|
                0 <= j < entries@.len() ==> entries_view(entries@)[j].0 != key@,
        },
{
    let ghost s = entries_view(entries@);
    let mut i: usize = 0;
    while i < entries.len()
        invariant
            i <= entries@.len(),
            s == entries_view(entries@),
            forall|j: int| 0 <= j < i ==> s[j].0 != key@,
        decreases entries@.len() - i,
    {
        if entries[i].key.eq_id(key) {
            assert(s[i as int].0 == key@);
            return Some(i);
        }
        assert(s[i as int].0 != key@);
        i += 1;
    }
    None
}

/// The index of the first entry whose key the abbreviation matches, if any.
fn find_abbrev(entries: &Vec<NoteEntry>, a: &Abbrev) -> (r: Option<usize>)
    requires
        a.wf(),
    ensures
        match r {
            Some(i) => i < entries@.len() && abbrev_matches(
                a.id_seq(),
                a.len_spec(),
                entries_view(entries@)[i as int].0,
            ) && (forall|j: int|
                0 <= j < i ==> !abbrev_matches(
                    a.id_seq(),
                    a.len_spec(),
                    entries_view(entries@)[j].0,
                )),
            None => forall|j: int|
                0 <= j < entries@.len() ==> !abbrev_matches(
                    a.id_seq(),
                    a.len_spec(),
                    entries_view(entries@)[j].0,
                ),
        },
{
    let ghost s = entries_view(entries@);
    let mut i: usize = 0;
    while i < entries.len()
        invariant
            i <= entries@.len(),
            a.wf(),
            s == entries_view(entries@),
            forall|j: int| 0 <= j < i ==> !abbrev_matches(a.id_seq(), a.len_spec(), s[j].0),
        decreases entries@.len() - i,
    {
        if oid_matches_abbrev(&entries[i].key, a) {
            return Some(i);
        }
        i += 1;
    }
    None
}

/// The key's leading nibbles agree with the abbreviation's declared prefix.
fn oid_matches_abbrev(key: &GitObjectId, a: &Abbrev) -> (r: bool)
    requires
        a.wf(),
    ensures
        r == abbrev_matches(a.id_seq(), a.len_spec(), key@),
{
    proof {
        crate::oid::lemma_abbrev_len(*a);
    }
    let ab = a.as_object_id().as_raw_bytes();
    let kb = key.as_raw_bytes();
    let hl = a.len();
    let mut i: usize = 0;
    while i < hl
        invariant
            i <= hl,
            hl == a.len_spec(),
            4 <= hl <= 40,
            ab@ =~= a.id_seq(),
            kb@ =~= key@,
            ab@.len() == 20,
            kb@.len() == 20,
            forall|j: int| 0 <= j < i ==> nibble(a.id_seq(), j) == nibble(key@, j),
        decreases hl - i,
    {
        let an = if i % 2 == 0 {
            ab[i / 2] / 16
        } else {
            ab[i / 2] % 16
        };
        let kn = if i % 2 == 0 {
            kb[i / 2] / 16
        } else {
            kb[i / 2] % 16
        };
        if an != kn {
            assert(nibble(a.id_seq(), i as int) != nibble(key@, i as int));
            return false;
        }
        assert(nibble(a.id_seq(), i as int) == nibble(key@, i as int));
        i += 1;
    }
    true
}

/// Persists a snapshot of the store: a no-op handing back the current root
/// (or the fallback `reference`, verbatim, when none ever existed) if
/// nothing is dirty; otherwise serializes the entries into a tree object
/// under the namespace's file mode — the well-known empty tree when nothing
/// is mapped — and wraps it in a parentless commit with the fixed
/// placeholder identity and zero timestamp, except that an empty store that
/// never had a root yields the null "no metadata" sentinel rather than a
/// fabricated tree.
pub fn store_metadata_notes(notes: &mut cinnabar_notes_tree, reference: &GitObjectId) -> (r:
    GitObjectId)
    requires
        old(notes).wf(),
    ensures
        final(notes).wf(),
        r@ == cinnabar_notes_tree::spec_flush_result(*old(notes), reference@),
        final(notes).root_seq() == cinnabar_notes_tree::spec_flush_root(*old(notes)),
        !final(notes).is_dirty(),
        final(notes).is_initialized() == old(notes).is_initialized(),
        final(notes).entries_seq() == old(notes).entries_seq(),
        cinnabar_notes_tree::same_config(*final(notes), *old(notes)),
{
    if !notes.dirty {
        if !notes.root.is_null() {
            return notes.root;
        }
        return *reference;
    }
    let tree_oid = if notes.entries.len() == 0 {
        if notes.root.is_null() {
            notes.dirty = false;
            let r = GitObjectId::null();
            proof {
                assert(r@ == cinnabar_notes_tree::spec_flush_result(*old(notes), reference@));
            }
            return r;
        }
        empty_tree_oid()
    } else {
        tree_id_of(&notes.entries, notes.mode.bits())
    };
    proof {
        assert(tree_oid@ == spec_tree_id(old(notes).entries_seq(), old(notes).mode_bits()));
    }
    let cid = commit_id_of(&tree_oid);
    notes.root = cid;
    notes.dirty = false;
    cid
}

/// The mapping store keyed by host-store identifiers (the commit-metadata
/// namespace): values are recorded under the regular-file mode.
#[allow(non_camel_case_types)]
pub struct git_notes_tree {
    inner: cinnabar_notes_tree,
}

impl git_notes_tree {
    /// The underlying store state.
    pub closed spec fn tree(&self) -> cinnabar_notes_tree {
        self.inner
    }

    /// Well-formedness of the underlying store.
    pub open spec fn wf(&self) -> bool {
        self.tree().wf()
    }

    /// A store wired to its namespace; see [`cinnabar_notes_tree::new`].
    pub fn new(init_root: GitObjectId, loaded: Vec<NoteEntry>, start_empty: bool) -> (r: Self)
        requires
            unique_keys(entries_view(loaded@)),
        ensures
            r.wf(),
            !r.tree().is_initialized(),
            !r.tree().is_dirty(),
            r.tree().loaded_seq() == entries_view(loaded@),
            r.tree().init_root_seq() == init_root@,
            r.tree().start_empty_flag() == start_empty,
            r.tree().mode_bits() == 0o100644u16,
    {
        git_notes_tree {
            inner: cinnabar_notes_tree::new(init_root, loaded, start_empty, FileMode::regular()),
        }
    }

    /// See [`cinnabar_notes_tree::get_note`].
    pub fn get_note(&mut self, oid: GitObjectId) -> (r: Option<GitObjectId>)
        requires
            old(self).wf(),
        ensures
            cinnabar_notes_tree::is_init_of(final(self).tree(), old(self).tree()),
            final(self).wf(),
            opt_id_view(r) == spec_lookup(old(self).tree().post_init_entries(), oid@),
    {
        self.inner.get_note(&oid)
    }

    /// See [`cinnabar_notes_tree::add_note`].
    pub fn add_note(&mut self, oid: GitObjectId, note_oid: GitObjectId)
        requires
            old(self).wf(),
        ensures
            final(self).wf(),
            final(self).tree().is_initialized(),
            final(self).tree().is_dirty(),
            final(self).tree().entries_seq() == spec_add(
                old(self).tree().post_init_entries(),
                oid@,
                note_oid@,
            ),
            final(self).tree().root_seq() == old(self).tree().post_init_root(),
            cinnabar_notes_tree::same_config(final(self).tree(), old(self).tree()),
    {
        self.inner.add_note(&oid, &note_oid)
    }

    /// See [`cinnabar_notes_tree::remove_note`].
    pub fn remove_note(&mut self, oid: GitObjectId)
        requires
            old(self).wf(),
        ensures
            final(self).wf(),
            final(self).tree().is_initialized(),
            final(self).tree().is_dirty(),
            final(self).tree().entries_seq() == spec_remove(
                old(self).tree().post_init_entries(),
                oid@,
            ),
            final(self).tree().root_seq() == old(self).tree().post_init_root(),
            cinnabar_notes_tree::same_config(final(self).tree(), old(self).tree()),
    {
        self.inner.remove_note(&oid)
    }

    /// See [`cinnabar_notes_tree::for_each`].
    pub fn for_each(&mut self) -> (r: Vec<NoteEntry>)
        requires
            old(self).wf(),
        ensures
            cinnabar_notes_tree::is_init_of(final(self).tree(), old(self).tree()),
            final(self).wf(),
            entries_view(r@) == old(self).tree().post_init_entries(),
    {
        self.inner.for_each()
    }

    /// See [`cinnabar_notes_tree::done`].
    pub fn done(&mut self)
        ensures
            final(self).wf(),
            !final(self).tree().is_initialized(),
            !final(self).tree().is_dirty(),
    {
        self.inner.done()
    }

    /// The underlying store, for snapshotting with [`store_metadata_notes`].
    pub fn inner_mut(&mut self) -> (r: &mut cinnabar_notes_tree)
        ensures
            *r == old(self).tree(),
            final(self).tree() == *final(r),
    {
        &mut self.inner
    }
}

/// A mapping store keyed by foreign-store identifiers, with abbreviated
/// lookup (the foreign→local object map and the file-metadata namespaces).
#[allow(non_camel_case_types)]
pub struct hg_notes_tree {
    inner: cinnabar_notes_tree,
}

impl hg_notes_tree {
    /// The underlying store state.
    pub closed spec fn tree(&self) -> cinnabar_notes_tree {
        self.inner
    }

    /// Well-formedness of the underlying store.
    pub open spec fn wf(&self) -> bool {
        self.tree().wf()
    }

    /// A store wired to its namespace; `mode` is the file mode its snapshots
    /// record (gitlink for the foreign→local object map, so values are
    /// commit-like links; regular-file mode otherwise).
    pub fn new(init_root: GitObjectId, loaded: Vec<NoteEntry>, start_empty: bool, mode: FileMode)
        -> (r: Self)
        requires
            unique_keys(entries_view(loaded@)),
        ensures
            r.wf(),
            !r.tree().is_initialized(),
            !r.tree().is_dirty(),
            r.tree().loaded_seq() == entries_view(loaded@),
            r.tree().init_root_seq() == init_root@,
            r.tree().start_empty_flag() == start_empty,
            r.tree().mode_bits() == mode.bits_spec(),
    {
        hg_notes_tree { inner: cinnabar_notes_tree::new(init_root, loaded, start_empty, mode) }
    }

    /// See [`cinnabar_notes_tree::get_note`]; the foreign key's bytes name
    /// the entry.
    pub fn get_note(&mut self, oid: HgObjectId) -> (r: Option<GitObjectId>)
        requires
            old(self).wf(),
        ensures
            cinnabar_notes_tree::is_init_of(final(self).tree(), old(self).tree()),
            final(self).wf(),
            opt_id_view(r) == spec_lookup(old(self).tree().post_init_entries(), oid@),
    {
        let key = GitObjectId::from_hg(&oid);
        self.inner.get_note(&key)
    }

    /// See [`cinnabar_notes_tree::get_note_abbrev`].
    pub fn get_note_abbrev(&mut self, oid: &Abbrev) -> (r: Option<GitObjectId>)
        requires
            old(self).wf(),
            oid.wf(),
        ensures
            cinnabar_notes_tree::is_init_of(final(self).tree(), old(self).tree()),
            final(self).wf(),
            opt_id_view(r) == spec_lookup_abbrev(
                old(self).tree().post_init_entries(),
                oid.id_seq(),
                oid.len_spec(),
            ),
    {
        self.inner.get_note_abbrev(oid)
    }

    /// See [`cinnabar_notes_tree::add_note`].
    pub fn add_note(&mut self, oid: HgObjectId, note_oid: GitObjectId)
        requires
            old(self).wf(),
        ensures
            final(self).wf(),
            final(self).tree().is_initialized(),
            final(self).tree().is_dirty(),
            final(self).tree().entries_seq() == spec_add(
                old(self).tree().post_init_entries(),
                oid@,
                note_oid@,
            ),
            final(self).tree().root_seq() == old(self).tree().post_init_root(),
            cinnabar_notes_tree::same_config(final(self).tree(), old(self).tree()),
    {
        let key = GitObjectId::from_hg(&oid);
        self.inner.add_note(&key, &note_oid)
    }

    /// See [`cinnabar_notes_tree::remove_note`].
    pub fn remove_note(&mut self, oid: HgObjectId)
        requires
            old(self).wf(),
        ensures
            final(self).wf(),
            final(self).tree().is_initialized(),
            final(self).tree().is_dirty(),
            final(self).tree().entries_seq() == spec_remove(
                old(self).tree().post_init_entries(),
                oid@,
            ),
            final(self).tree().root_seq() == old(self).tree().post_init_root(),
            cinnabar_notes_tree::same_config(final(self).tree(), old(self).tree()),
    {
        let key = GitObjectId::from_hg(&oid);
        self.inner.remove_note(&key)
    }

    /// See [`cinnabar_notes_tree::for_each`]; pairs of the foreign key and
    /// the mapped value.
    pub fn for_each(&mut self) -> (r: Vec<NoteEntry>)
        requires
            old(self).wf(),
        ensures
            cinnabar_notes_tree::is_init_of(final(self).tree(), old(self).tree()),
            final(self).wf(),
            entries_view(r@) == old(self).tree().post_init_entries(),
    {
        self.inner.for_each()
    }

    /// See [`cinnabar_notes_tree::done`].
    pub fn done(&mut self)
        ensures
            final(self).wf(),
            !final(self).tree().is_initialized(),
            !final(self).tree().is_dirty(),
    {
        self.inner.done()
    }

    /// The underlying store, for snapshotting with [`store_metadata_notes`].
    pub fn inner_mut(&mut self) -> (r: &mut cinnabar_notes_tree)
        ensures
            *r == old(self).tree(),
            final(self).tree() == *final(r),
    {
        &mut self.inner
    }
}

/// The three per-session mapping stores, owned by one explicit context
/// rather than ambient global state: commit metadata, the foreign→local
/// object map, and file metadata (the last possibly inactive, starting
/// empty).
pub struct MetadataStores {
    pub git2hg: git_notes_tree,
    pub hg2git: hg_notes_tree,
    pub files_meta: hg_notes_tree,
}

/// Looks a foreign key up in a foreign-keyed store handed over in its
/// fixed-layout form.
pub fn get_note_hg(notes: &mut cinnabar_notes_tree, oid: &hg_object_id) -> (r: Option<GitObjectId>)
    requires
        old(notes).wf(),
    ensures
        cinnabar_notes_tree::is_init_of(*final(notes), *old(notes)),
        final(notes).wf(),
        opt_id_view(r) == spec_lookup(old(notes).post_init_entries(), oid@),
{
    let h = oid.to_oid();
    let key = GitObjectId::from_hg(&h);
    notes.get_note(&key)
}

/// Resolves a foreign object identifier to its local counterpart.
pub fn resolve_hg2git(stores: &mut MetadataStores, oid: &hg_object_id) -> (r: Option<GitObjectId>)
    requires
        old(stores).hg2git.wf(),
    ensures
        cinnabar_notes_tree::is_init_of(final(stores).hg2git.tree(), old(stores).hg2git.tree()),
        final(stores).hg2git.wf(),
        opt_id_view(r) == spec_lookup(old(stores).hg2git.tree().post_init_entries(), oid@),
        final(stores).git2hg == old(stores).git2hg,
        final(stores).files_meta == old(stores).files_meta,
{
    get_note_hg(&mut stores.hg2git.inner, oid)
}

/// Resolves a foreign file revision to its metadata identifier.
pub fn get_files_meta(stores: &mut MetadataStores, oid: &hg_object_id) -> (r: Option<GitObjectId>)
    requires
        old(stores).files_meta.wf(),
    ensures
        cinnabar_notes_tree::is_init_of(
            final(stores).files_meta.tree(),
            old(stores).files_meta.tree(),
        ),
        final(stores).files_meta.wf(),
        opt_id_view(r) == spec_lookup(old(stores).files_meta.tree().post_init_entries(), oid@),
        final(stores).git2hg == old(stores).git2hg,
        final(stores).hg2git == old(stores).hg2git,
{
    get_note_hg(&mut stores.files_meta.inner, oid)
}

/// Records a foreign→local object mapping.
pub fn add_hg2git(stores: &mut MetadataStores, oid: &hg_object_id, note_oid: &GitObjectId)
    requires
        old(stores).hg2git.wf(),
    ensures
        final(stores).hg2git.wf(),
        final(stores).hg2git.tree().is_dirty(),
        final(stores).hg2git.tree().entries_seq() == spec_add(
            old(stores).hg2git.tree().post_init_entries(),
            oid@,
            note_oid@,
        ),
        final(stores).git2hg == old(stores).git2hg,
        final(stores).files_meta == old(stores).files_meta,
{
    let h = oid.to_oid();
    stores.hg2git.add_note(h, *note_oid)
}

/// Records a foreign file revision's metadata mapping.
pub fn add_files_meta(stores: &mut MetadataStores, oid: &hg_object_id, note_oid: &GitObjectId)
    requires
        old(stores).files_meta.wf(),
    ensures
        final(stores).files_meta.wf(),
        final(stores).files_meta.tree().is_dirty(),
        final(stores).files_meta.tree().entries_seq() == spec_add(
            old(stores).files_meta.tree().post_init_entries(),
            oid@,
            note_oid@,
        ),
        final(stores).git2hg == old(stores).git2hg,
        final(stores).hg2git == old(stores).hg2git,
{
    let h = oid.to_oid();
    stores.files_meta.add_note(h, *note_oid)
}

/// Mapping a fresh key then reading it yields exactly the mapped value.
pub proof fn lemma_add_then_get(s: Seq<(Seq<u8>, Seq<u8>)>, k: Seq<u8>, v: Seq<u8>)
    requires
        spec_lookup(s, k) is None,
    ensures
        spec_lookup(spec_add(s, k, v), k) == Some(v),
{
    lemma_lookup_push(s, (k, v), k);
}

/// Mapping the same key twice keeps the first value: the fixed "ignore new,
/// keep existing" collision policy.
pub proof fn lemma_add_twice_keeps_first(
    s: Seq<(Seq<u8>, Seq<u8>)>,
    k: Seq<u8>,
    v1: Seq<u8>,
    v2: Seq<u8>,
)
    requires
        spec_lookup(s, k) is None,
    ensures
        spec_lookup(spec_add(spec_add(s, k, v1), k, v2), k) == Some(v1),
{
    lemma_add_then_get(s, k, v1);
    assert(spec_add(spec_add(s, k, v1), k, v2) == spec_add(s, k, v1));
}

/// Removing a key then reading it yields absent, whether or not the key was
/// ever present.
pub proof fn lemma_remove_then_get_absent(s: Seq<(Seq<u8>, Seq<u8>)>, k: Seq<u8>)
    ensures
        spec_lookup(spec_remove(s, k), k) is None,
    decreases s.len(),
{
    if s.len() > 0 {
        lemma_remove_then_get_absent(s.drop_last(), k);
        if s.last().0 != k {
            lemma_lookup_push(spec_remove(s.drop_last(), k), s.last(), k);
        }
    }
}

/// A full-length abbreviation matches a 20-byte key iff it equals the key.
pub proof fn lemma_full_match_iff_eq(a: Seq<u8>, k: Seq<u8>)
    requires
        a.len() == 20,
        k.len() == 20,
    ensures
        abbrev_matches(a, 40, k) <==> a == k,
{
    if abbrev_matches(a, 40, k) {
        assert forall|j: int| 0 <= j < 20 implies a[j] == k[j] by {
            assert(nibble(a, 2 * j) == nibble(k, 2 * j));
            assert(nibble(a, 2 * j + 1) == nibble(k, 2 * j + 1));
            assert(a[j] == a[j] / 16 * 16 + a[j] % 16);
            assert(k[j] == k[j] / 16 * 16 + k[j] % 16);
        }
        assert(a =~= k);
    }
    if a == k {
        assert forall|i: int| 0 <= i < 40 implies nibble(a, i) == nibble(k, i) by {}
    }
}

/// With a full-length prefix, abbreviated lookup behaves exactly as the
/// exact lookup, for every key.
pub proof fn lemma_abbrev_full_length(s: Seq<(Seq<u8>, Seq<u8>)>, a: Seq<u8>)
    requires
        a.len() == 20,
        forall|i: int| 0 <= i < s.len() ==> (#[trigger] s[i].0).len() == 20,
    ensures
        spec_lookup_abbrev(s, a, 40) == spec_lookup(s, a),
    decreases s.len(),
{
    if s.len() > 0 {
        lemma_full_match_iff_eq(a, s[0].0);
        assert(forall|i: int|
            0 <= i < s.drop_first().len() ==> (#[trigger] s.drop_first()[i].0).len() == 20);
        lemma_abbrev_full_length(s.drop_first(), a);
    }
}

/// An abbreviation matching exactly one stored key resolves to that key's
/// value; one matching no key resolves to absent.
pub proof fn lemma_abbrev_unique_match(s: Seq<(Seq<u8>, Seq<u8>)>, a: Seq<u8>, hex_len: int, i: int)
    requires
        0 <= i < s.len(),
        abbrev_matches(a, hex_len, s[i].0),
        forall|j: int| 0 <= j < s.len() && j != i ==> !abbrev_matches(a, hex_len, s[j].0),
    ensures
        spec_lookup_abbrev(s, a, hex_len) == Some(s[i].1),
{
    lemma_lookup_abbrev_first_index(s, a, hex_len, i);
}

/// After a snapshot, a second snapshot with no intervening mutation is a
/// no-op and hands back the same identifier: `mid` is any state whose dirty
/// flag, root and entries are what the first snapshot of `pre` left behind,
/// and the caller passes the first result as the fallback, as the holder of
/// the previous root does.
pub proof fn lemma_flush_then_flush(
    pre: cinnabar_notes_tree,
    mid: cinnabar_notes_tree,
    reference: Seq<u8>,
    r1: Seq<u8>,
)
    requires
        r1 == cinnabar_notes_tree::spec_flush_result(pre, reference),
        !mid.is_dirty(),
        mid.root_seq() == cinnabar_notes_tree::spec_flush_root(pre),
    ensures
        cinnabar_notes_tree::spec_flush_result(mid, r1) == r1,
        cinnabar_notes_tree::spec_flush_root(mid) == mid.root_seq(),
{
}

} // verus!


