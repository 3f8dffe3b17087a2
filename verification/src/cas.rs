//! The content-addressable store: immutable blobs keyed by the integrity
//! hash of their bytes. Insert is a pure function of the content, so
//! re-inserting identical bytes yields the same key and leaves the store
//! unchanged; reads never mutate.

use vstd::prelude::*;

verus! {

/// The integrity string that the hash backend computes for the given bytes;
/// a function of the content alone.
pub uninterp spec fn digest_of(content: Seq<u8>) -> Seq<char>;

/// The canonical form of an integrity-hash string, or `None` when the
/// string is malformed.
pub uninterp spec fn parsed_hash(s: Seq<char>) -> Option<Seq<char>>;

/// Relies on ssri::Integrity::from and its Display impl: the sha-256
/// integrity string depends on the bytes alone, and its own text is
/// canonical, parsing back to itself.
#[verifier::external_body]
fn compute_hash(content: &Vec<u8>) -> (h: String)
    ensures
        h@ == digest_of(content@),
        parsed_hash(h@) == Some(h@),
{
    ssri::Integrity::from(content).to_string()
}

/// Relies on ssri's FromStr impl for Integrity and its Display impl:
/// parsing is a pure function of the string and yields the canonical form
/// of whatever ssri accepts as an integrity string — a whitespace-separated
/// list of algorithm-digest pairs, the empty list included, with anything
/// past a second `-` in a pair ignored.
#[verifier::external_body]
pub(crate) fn parse_hash(s: &String) -> (r: Option<String>)
    ensures
        match r {
            Some(c) => parsed_hash(s@) == Some(c@),
            None => parsed_hash(s@) is None,
        },
{
    match s.parse::<ssri::Integrity>() {
        Ok(i) => Some(i.to_string()),
        Err(_) => None,
    }
}

/// One stored blob together with its key.
pub struct CasEntry {
    pub key: String,
    pub content: Vec<u8>,
}

/// The map that a sequence of entries denotes; later entries take
/// precedence, though a well-formed store never holds a key twice.
pub open spec fn entries_map(s: Seq<CasEntry>) -> Map<Seq<char>, Seq<u8>>
    decreases s.len(),
{
    if s.len() == 0 {
        Map::empty()
    } else {
        entries_map(s.drop_last()).insert(s.last().key@, s.last().content@)
    }
}

/// No key occurs twice in the sequence of entries.
pub open spec fn keys_unique(s: Seq<CasEntry>) -> bool {
    forall|i: int, j: int| 0 <= i < j < s.len() ==> s[i].key@ != s[j].key@
}

/// The store a content-addressed insert leaves behind.
pub open spec fn cas_after_insert(
    m: Map<Seq<char>, Seq<u8>>,
    content: Seq<u8>,
) -> Map<Seq<char>, Seq<u8>> {
    m.insert(digest_of(content), content)
}

/// The content-addressable store.
pub struct Cas {
    entries: Vec<CasEntry>,
}

impl View for Cas {
    type V = Map<Seq<char>, Seq<u8>>;

    closed spec fn view(&self) -> Map<Seq<char>, Seq<u8>> {
        entries_map(self.entries@)
    }
}

proof fn lemma_entries_map_absent(s: Seq<CasEntry>, k: Seq<char>)
    requires
        forall|i: int| 0 <= i < s.len() ==> s[i].key@ != k,
    ensures
        !entries_map(s).dom().contains(k),
    decreases s.len(),
{
    if s.len() > 0 {
        assert(forall|i: int| 0 <= i < s.drop_last().len() ==> s.drop_last()[i] == s[i]);
        lemma_entries_map_absent(s.drop_last(), k);
    }
}

proof fn lemma_entries_map_lookup(s: Seq<CasEntry>, i: int)
    requires
        keys_unique(s),
        0 <= i < s.len(),
    ensures
        entries_map(s).dom().contains(s[i].key@),
        entries_map(s)[s[i].key@] == s[i].content@,
    decreases s.len(),
{
    assert(forall|a: int| 0 <= a < s.drop_last().len() ==> s.drop_last()[a] == s[a]);
    if i < s.len() - 1 {
        lemma_entries_map_lookup(s.drop_last(), i);
    }
}

proof fn lemma_entries_map_remove(s: Seq<CasEntry>, i: int)
    requires
        keys_unique(s),
        0 <= i < s.len(),
    ensures
        entries_map(s.remove(i)) =~= entries_map(s).remove(s[i].key@),
    decreases s.len(),
{
    let k = s[i].key@;
    assert(forall|a: int| 0 <= a < s.drop_last().len() ==> s.drop_last()[a] == s[a]);
    if i == s.len() - 1 {
        assert(s.remove(i) =~= s.drop_last());
        lemma_entries_map_absent(s.drop_last(), k);
    } else {
        assert(s.remove(i).drop_last() =~= s.drop_last().remove(i));
        assert(s.remove(i).last() == s.last());
        lemma_entries_map_remove(s.drop_last(), i);
    }
}

proof fn lemma_entries_map_len(s: Seq<CasEntry>)
    requires
        keys_unique(s),
    ensures
        entries_map(s).dom().finite(),
        entries_map(s).dom().len() == s.len(),
    decreases s.len(),
{
    broadcast use vstd::set::axiom_set_insert_len;

    if s.len() > 0 {
        assert(forall|a: int| 0 <= a < s.drop_last().len() ==> s.drop_last()[a] == s[a]);
        lemma_entries_map_len(s.drop_last());
        lemma_entries_map_absent(s.drop_last(), s.last().key@);
    }
}

impl Cas {
    /// Every key occurs once, is the digest of the bytes it keys, and is in
    /// canonical form.
    pub closed spec fn wf(&self) -> bool {
        &&& keys_unique(self.entries@)
        &&& forall|i: int|
            0 <= i < self.entries@.len() ==> self.entries@[i].key@ == digest_of(
                self.entries@[i].content@,
            )
        &&& forall|i: int|
            0 <= i < self.entries@.len() ==> parsed_hash(self.entries@[i].key@) == Some(
                self.entries@[i].key@,
            )
    }

    /// An empty store.
    pub fn new() -> (r: Cas)
        ensures
            r.wf(),
            r@ == Map::<Seq<char>, Seq<u8>>::empty(),
    {
        Cas { entries: Vec::new() }
    }

    /// Stores the given bytes under the integrity hash of their content and
    /// returns that hash in canonical form. Identical bytes always yield
    /// the same key, and re-insertion leaves the store as it was.
    pub fn insert(&mut self, content: Vec<u8>) -> (h: String)
        requires
            old(self).wf(),
        ensures
            final(self).wf(),
            h@ == digest_of(content@),
            parsed_hash(h@) == Some(h@),
            final(self)@ == cas_after_insert(old(self)@, content@),
    {
        let h = compute_hash(&content);
        let ghost pre = self.entries@;
        let mut idx: usize = 0;
        let mut found: bool = false;
        let mut pos: usize = 0;
        while idx < self.entries.len()
            invariant
                *self == *old(self),
                self.entries@ == pre,
                idx <= pre.len(),
                h@ == digest_of(content@),
                !found ==> forall|j: int| 0 <= j < idx ==> pre[j].key@ != h@,
                found ==> pos < pre.len() && pre[pos as int].key@ == h@,
            decreases pre.len() - idx,
        {
            if !found && self.entries[idx].key == h {
                found = true;
                pos = idx;
            }
            idx += 1;
        }
        if found {
            self.entries.remove(pos);
            proof {
                lemma_entries_map_remove(pre, pos as int);
                assert(forall|j: int|
                    0 <= j < self.entries@.len() ==> self.entries@[j] == if j < pos as int {
                        pre[j]
                    } else {
                        pre[j + 1]
                    });
                assert(forall|j: int| 0 <= j < self.entries@.len() ==> self.entries@[j].key@ != h@);
            }
        } else {
            proof {
                lemma_entries_map_absent(pre, h@);
            }
        }
        let ghost mid = self.entries@;
        self.entries.push(CasEntry { key: h.clone(), content });
        proof {
            assert(self.entries@.drop_last() =~= mid);
            assert(entries_map(self.entries@) == entries_map(mid).insert(h@, content@));
            if found {
                assert(entries_map(mid) =~= entries_map(pre).remove(h@));
                assert(entries_map(mid).insert(h@, content@) =~= entries_map(pre).insert(
                    h@,
                    content@,
                ));
            }
            assert(final(self)@ =~= cas_after_insert(old(self)@, content@));
        }
        h
    }

    /// Returns a copy of the bytes stored under the given canonical key, or
    /// `None` when the store holds no such entry.
    pub fn read(&self, key: &String) -> (r: Option<Vec<u8>>)
        requires
            self.wf(),
        ensures
            match r {
                Some(v) => self@.dom().contains(key@) && v@ == self@[key@],
                None => !self@.dom().contains(key@),
            },
    {
        let mut idx: usize = 0;
        while idx < self.entries.len()
            invariant
                idx <= self.entries@.len(),
                self.wf(),
                forall|j: int| 0 <= j < idx ==> self.entries@[j].key@ != key@,
            decreases self.entries@.len() - idx,
        {
            if self.entries[idx].key == *key {
                proof {
                    lemma_entries_map_lookup(self.entries@, idx as int);
                }
                return Some(vstd::slice::slice_to_vec(self.entries[idx].content.as_slice()));
            }
            idx += 1;
        }
        proof {
            lemma_entries_map_absent(self.entries@, key@);
        }
        None
    }

    /// The number of distinct entries the store holds.
    pub fn len(&self) -> (n: usize)
        requires
            self.wf(),
        ensures
            n == self@.dom().len(),
    {
        proof {
            lemma_entries_map_len(self.entries@);
        }
        self.entries.len()
    }
}

/// Inserting the same bytes twice yields the store that one insert yields:
/// content-addressed insertion is idempotent, and never duplicates an entry.
pub proof fn lemma_insert_idempotent(m: Map<Seq<char>, Seq<u8>>, content: Seq<u8>)
    ensures
        cas_after_insert(cas_after_insert(m, content), content) == cas_after_insert(m, content),
{
    assert(cas_after_insert(cas_after_insert(m, content), content) =~= cas_after_insert(
        m,
        content,
    ));
}

/// What was inserted is what a read of the returned key finds: the insert
/// of `content` leaves `content` stored under its own digest.
pub proof fn lemma_insert_read_back(m: Map<Seq<char>, Seq<u8>>, content: Seq<u8>)
    ensures
        cas_after_insert(m, content).dom().contains(digest_of(content)),
        cas_after_insert(m, content)[digest_of(content)] == content,
{
}

} // verus!
