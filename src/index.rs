//! The content index: identifier -> (digest, storage key), with upsert semantics
//! and a byte snapshot.
use vstd::prelude::*;
use vstd::utf8::encode_utf8;

verus! {

/// What one entry means: (identifier, digest, storage key).
pub type EntryView = (Seq<char>, Seq<char>, Seq<char>);

/// What the index means: each identifier maps to its (digest, storage key).
pub type IndexMap = Map<Seq<char>, (Seq<char>, Seq<char>)>;

/// One row of the index.
pub struct IndexEntry {
    pub identifier: String,
    pub digest: String,
    pub key: String,
}

impl IndexEntry {
    pub open spec fn view(&self) -> EntryView {
        (self.identifier@, self.digest@, self.key@)
    }
}

/// Why an entry was refused.
#[derive(Debug, Clone, Copy, PartialEq, Eq, Structural)]
pub enum IndexError {
    EmptyIdentifier,
    EmptyDigest,
}

impl IndexError {
    /// Human-readable text of the error.
    pub fn message(&self) -> (r: String)
        ensures
            r@ == self.message_spec(),
    {
        match self {
            IndexError::EmptyIdentifier => String::from_str("identifier is empty"),
            IndexError::EmptyDigest => String::from_str("digest is empty"),
        }
    }

    pub open spec fn message_spec(&self) -> Seq<char> {
        match self {
            IndexError::EmptyIdentifier => "identifier is empty"@,
            IndexError::EmptyDigest => "digest is empty"@,
        }
    }
}

/// The map that a sequence of rows stands for: later rows override earlier ones.
pub open spec fn map_of(s: Seq<EntryView>) -> IndexMap
    decreases s.len(),
{
    if s.len() == 0 {
        Map::empty()
    } else {
        let e = s.last();
        map_of(s.drop_last()).insert(e.0, (e.1, e.2))
    }
}

/// Upsert at the level of the map: the identifier now maps to the new pair.
pub open spec fn upsert_spec(m: IndexMap, id: Seq<char>, digest: Seq<char>, key: Seq<char>) -> IndexMap {
    m.insert(id, (digest, key))
}

/// Whether an entry is accepted, and with which error it is refused.
pub open spec fn entry_check(id: Seq<char>, digest: Seq<char>) -> Result<(), IndexError> {
    if id.len() == 0 {
        Err(IndexError::EmptyIdentifier)
    } else if digest.len() == 0 {
        Err(IndexError::EmptyDigest)
    } else {
        Ok(())
    }
}

/// Upserts a whole batch in order.
pub open spec fn upsert_all(m: IndexMap, batch: Seq<EntryView>) -> IndexMap
    decreases batch.len(),
{
    if batch.len() == 0 {
        m
    } else {
        let e = batch.last();
        upsert_spec(upsert_all(m, batch.drop_last()), e.0, e.1, e.2)
    }
}

pub open spec fn distinct_ids(s: Seq<EntryView>) -> bool {
    forall|i: int, j: int| 0 <= i < j < s.len() ==> #[trigger] s[i].0 != #[trigger] s[j].0
}

proof fn lemma_map_of_dom(s: Seq<EntryView>, id: Seq<char>)
    ensures
        map_of(s).contains_key(id) <==> exists|j: int| 0 <= j < s.len() && #[trigger] s[j].0 == id,
    decreases s.len(),
{
    if s.len() > 0 {
        lemma_map_of_dom(s.drop_last(), id);
        if map_of(s.drop_last()).contains_key(id) {
            let j = choose|j: int| 0 <= j < s.drop_last().len() && #[trigger] s.drop_last()[j].0 == id;
            assert(s[j].0 == id);
        }
        if exists|j: int| 0 <= j < s.len() && #[trigger] s[j].0 == id {
            let j = choose|j: int| 0 <= j < s.len() && #[trigger] s[j].0 == id;
            if j < s.len() - 1 {
                assert(s.drop_last()[j].0 == id);
            }
        }
    }
}

proof fn lemma_map_of_update(s: Seq<EntryView>, i: int, e: EntryView)
    requires
        0 <= i < s.len(),
        s[i].0 == e.0,
        distinct_ids(s),
    ensures
        map_of(s.update(i, e)) == map_of(s).insert(e.0, (e.1, e.2)),
    decreases s.len(),
{
    let t = s.update(i, e);
    if i == s.len() - 1 {
        assert(t.drop_last() =~= s.drop_last());
        assert(map_of(t) =~= map_of(s).insert(e.0, (e.1, e.2)));
    } else {
        assert(t.drop_last() =~= s.drop_last().update(i, e));
        assert(distinct_ids(s.drop_last()));
        lemma_map_of_update(s.drop_last(), i, e);
        assert(s[i].0 != s.last().0);
        assert(map_of(t) =~= map_of(s).insert(e.0, (e.1, e.2)));
    }
}

/// The in-memory index, owned by the indexing loop.
pub struct Index {
    entries: Vec<IndexEntry>,
}

impl Index {
    /// The rows, in the order in which their identifiers were first inserted.
    pub closed spec fn rows(&self) -> Seq<EntryView> {
        self.entries@.map_values(|e: IndexEntry| e.view())
    }

    pub closed spec fn wf(&self) -> bool {
        distinct_ids(self.rows())
    }

    pub closed spec fn view(&self) -> IndexMap {
        map_of(self.rows())
    }

    pub fn new() -> (r: Index)
        ensures
            r.wf(),
            r@ == IndexMap::empty(),
            r.rows() == Seq::<EntryView>::empty(),
    {
        let r = Index { entries: Vec::new() };
        assert(r.rows() =~= Seq::<EntryView>::empty());
        r
    }

    /// Number of identifiers held.
    pub fn len(&self) -> (r: usize)
        requires
            self.wf(),
        ensures
            r == self@.dom().len(),
            r == self.rows().len(),
    {
        proof {
            self.lemma_len();
        }
        self.entries.len()
    }

    proof fn lemma_len(&self)
        requires
            self.wf(),
        ensures
            self@.dom().len() == self.rows().len(),
    {
        lemma_distinct_len(self.rows());
    }

    /// Position of the row with this identifier.
    fn find(&self, identifier: &String) -> (r: Option<usize>)
        ensures
            match r {
                Some(i) => i < self.rows().len() && self.rows()[i as int].0 == identifier@,
                None => forall|j: int| 0 <= j < self.rows().len() ==> #[trigger] self.rows()[j].0 != identifier@,
            },
    {
        let mut i: usize = 0;
        while i < self.entries.len()
            invariant
                i <= self.entries.len(),
                forall|j: int| 0 <= j < i ==> #[trigger] self.rows()[j].0 != identifier@,
            decreases self.entries.len() - i,
        {
            if self.entries[i].identifier == *identifier {
                return Some(i);
            }
            i = i + 1;
        }
        None
    }

    /// The (digest, storage key) held for an identifier.
    pub fn get(&self, identifier: &String) -> (r: Option<(String, String)>)
        requires
            self.wf(),
        ensures
            match r {
                Some(p) => self@.contains_key(identifier@) && self@[identifier@] == (p.0@, p.1@),
                None => !self@.contains_key(identifier@),
            },
    {
        proof {
            lemma_map_of_dom(self.rows(), identifier@);
        }
        match self.find(identifier) {
            Some(i) => {
                proof {
                    lemma_map_of_value(self.rows(), i as int);
                }
                Some((self.entries[i].digest.clone(), self.entries[i].key.clone()))
            },
            None => None,
        }
    }

    /// Inserts the entry, replacing any entry with the same identifier.
    /// An empty identifier or digest is refused and leaves the index as it was.
    pub fn upsert(&mut self, identifier: &String, digest: &String, key: &String) -> (r: Result<(), IndexError>)
        requires
            old(self).wf(),
        ensures
            final(self).wf(),
            r == entry_check(identifier@, digest@),
            r is Ok ==> final(self)@ == upsert_spec(old(self)@, identifier@, digest@, key@),
            r is Err ==> final(self)@ == old(self)@ && final(self).rows() == old(self).rows(),
    {
        if identifier.as_str().is_empty() {
            return Err(IndexError::EmptyIdentifier);
        }
        if digest.as_str().is_empty() {
            return Err(IndexError::EmptyDigest);
        }
        let entry = IndexEntry { identifier: identifier.clone(), digest: digest.clone(), key: key.clone() };
        let ghost e = entry.view();
        let ghost before = self.rows();
        match self.find(identifier) {
            Some(i) => {
                self.entries.set(i, entry);
                proof {
                    assert(self.rows() =~= before.update(i as int, e));
                    lemma_map_of_update(before, i as int, e);
                }
            },
            None => {
                self.entries.push(entry);
                proof {
                    assert(self.rows() =~= before.push(e));
                    assert(self.rows().drop_last() =~= before);
                }
            },
        }
        Ok(())
    }
}

proof fn lemma_map_of_value(s: Seq<EntryView>, i: int)
    requires
        0 <= i < s.len(),
        distinct_ids(s),
    ensures
        map_of(s).contains_key(s[i].0),
        map_of(s)[s[i].0] == (s[i].1, s[i].2),
    decreases s.len(),
{
    if i < s.len() - 1 {
        assert(distinct_ids(s.drop_last()));
        assert(s.drop_last()[i] == s[i]);
        lemma_map_of_value(s.drop_last(), i);
        assert(s[i].0 != s.last().0);
    }
}

proof fn lemma_distinct_len(s: Seq<EntryView>)
    requires
        distinct_ids(s),
    ensures
        map_of(s).dom().len() == s.len(),
        map_of(s).dom().finite(),
    decreases s.len(),
{
    if s.len() > 0 {
        let p = s.drop_last();
        assert(distinct_ids(p));
        lemma_distinct_len(p);
        lemma_map_of_dom(p, s.last().0);
        assert(!map_of(p).contains_key(s.last().0)) by {
            if map_of(p).contains_key(s.last().0) {
                let j = choose|j: int| 0 <= j < p.len() && #[trigger] p[j].0 == s.last().0;
                assert(s[j].0 == s[s.len() - 1].0);
            }
        }
        assert(map_of(s).dom() =~= map_of(p).dom().insert(s.last().0));
    }
}

/// Why a snapshot could not be taken.
#[derive(Debug, Clone, Copy, PartialEq, Eq, Structural)]
pub enum SnapshotError {
    /// A field is longer than its 32-bit length prefix can state.
    FieldTooLong,
}

pub open spec fn u32_max() -> nat {
    0xffff_ffff
}

/// A length as four big-endian bytes.
pub open spec fn be32(n: nat) -> Seq<u8> {
    seq![
        ((n / 0x100_0000) % 0x100) as u8,
        ((n / 0x1_0000) % 0x100) as u8,
        ((n / 0x100) % 0x100) as u8,
        (n % 0x100) as u8,
    ]
}

/// A text field: its UTF-8 length as a 32-bit prefix, then its UTF-8 bytes.
pub open spec fn field_bytes(c: Seq<char>) -> Option<Seq<u8>> {
    let b = encode_utf8(c);
    if b.len() > u32_max() {
        None
    } else {
        Some(be32(b.len()) + b)
    }
}

/// One row: identifier, digest and storage key, each as a field.
pub open spec fn entry_bytes(e: EntryView) -> Option<Seq<u8>> {
    match (field_bytes(e.0), field_bytes(e.1), field_bytes(e.2)) {
        (Some(a), Some(b), Some(c)) => Some(a + b + c),
        _ => None,
    }
}

/// The snapshot of a sequence of rows: the rows' bytes one after another.
pub open spec fn snapshot_of(s: Seq<EntryView>) -> Option<Seq<u8>>
    decreases s.len(),
{
    if s.len() == 0 {
        Some(Seq::empty())
    } else {
        match (snapshot_of(s.drop_last()), entry_bytes(s.last())) {
            (Some(a), Some(b)) => Some(a + b),
            _ => None,
        }
    }
}

proof fn lemma_snapshot_none_extends(s: Seq<EntryView>, i: int)
    requires
        0 <= i <= s.len(),
        snapshot_of(s.take(i)) is None,
    ensures
        snapshot_of(s) is None,
    decreases s.len(),
{
    if i < s.len() {
        assert(s.drop_last().take(i) =~= s.take(i));
        lemma_snapshot_none_extends(s.drop_last(), i);
    } else {
        assert(s.take(i) =~= s);
    }
}

/// Appends one text field to `out`; refuses a field too long for its prefix.
fn push_field(out: &mut Vec<u8>, text: &String) -> (ok: bool)
    ensures
        ok == field_bytes(text@) is Some,
        ok ==> final(out)@ == old(out)@ + field_bytes(text@).unwrap(),
{
    let b = text.as_str().as_bytes();
    let n = b.len();
    if n > 0xffff_ffff {
        return false;
    }
    let ghost start = out@;
    out.push(((n / 0x100_0000) % 0x100) as u8);
    out.push(((n / 0x1_0000) % 0x100) as u8);
    out.push(((n / 0x100) % 0x100) as u8);
    out.push((n % 0x100) as u8);
    let ghost head = out@;
    assert(head =~= start + be32(n as nat));
    let mut i: usize = 0;
    while i < n
        invariant
            n == b@.len(),
            i <= n,
            out@ == head + b@.take(i as int),
        decreases n - i,
    {
        out.push(b[i]);
        assert(b@.take(i + 1) =~= b@.take(i as int).push(b@[i as int]));
        i = i + 1;
    }
    assert(b@.take(n as int) =~= b@);
    assert(out@ =~= start + (be32(n as nat) + b@));
    true
}

impl Index {
    /// Serializes the index, rows in insertion order.
    pub fn snapshot(&self) -> (r: Result<Vec<u8>, SnapshotError>)
        ensures
            match r {
                Ok(bytes) => snapshot_of(self.rows()) == Some(bytes@),
                Err(e) => snapshot_of(self.rows()) is None && e == SnapshotError::FieldTooLong,
            },
    {
        let mut out: Vec<u8> = Vec::new();
        let mut i: usize = 0;
        while i < self.entries.len()
            invariant
                i <= self.entries.len(),
                snapshot_of(self.rows().take(i as int)) == Some(out@),
            decreases self.entries.len() - i,
        {
            let ghost before = out@;
            let ghost t = self.rows().take(i + 1);
            assert(t.drop_last() =~= self.rows().take(i as int));
            assert(t.last() == self.entries[i as int].view());
            let e = &self.entries[i];
            if !push_field(&mut out, &e.identifier) || !push_field(&mut out, &e.digest)
                || !push_field(&mut out, &e.key) {
                proof {
                    lemma_snapshot_none_extends(self.rows(), i + 1);
                }
                return Err(SnapshotError::FieldTooLong);
            }
            assert(out@ =~= before + entry_bytes(t.last()).unwrap());
            i = i + 1;
        }
        assert(self.rows().take(i as int) =~= self.rows());
        Ok(out)
    }
}

/// Inserting an identifier a second time, with another digest, leaves a
/// single entry under it: the one written last. The set of identifiers is the
/// one after the first insertion.
pub proof fn lemma_upsert_replaces(
    m: IndexMap,
    id: Seq<char>,
    d1: Seq<char>,
    k1: Seq<char>,
    d2: Seq<char>,
    k2: Seq<char>,
)
    ensures
        upsert_spec(upsert_spec(m, id, d1, k1), id, d2, k2) == upsert_spec(m, id, d2, k2),
        upsert_spec(upsert_spec(m, id, d1, k1), id, d2, k2)[id] == (d2, k2),
        upsert_spec(upsert_spec(m, id, d1, k1), id, d2, k2).dom() == upsert_spec(m, id, d1, k1).dom(),
{
    assert(upsert_spec(upsert_spec(m, id, d1, k1), id, d2, k2) =~= upsert_spec(m, id, d2, k2));
    assert(upsert_spec(upsert_spec(m, id, d1, k1), id, d2, k2).dom() =~= upsert_spec(m, id, d1, k1).dom());
}

proof fn lemma_upsert_all_overlay(m: IndexMap, batch: Seq<EntryView>)
    ensures
        upsert_all(m, batch) == m.union_prefer_right(map_of(batch)),
    decreases batch.len(),
{
    if batch.len() > 0 {
        lemma_upsert_all_overlay(m, batch.drop_last());
        assert(upsert_all(m, batch) =~= m.union_prefer_right(map_of(batch)));
    } else {
        assert(upsert_all(m, batch) =~= m.union_prefer_right(map_of(batch)));
    }
}

/// Replaying a batch of upserts on the state that the batch already produced
/// (events redelivered after a crash before their commit) changes nothing:
/// no entry is duplicated or altered.
pub proof fn lemma_replay_idempotent(m: IndexMap, batch: Seq<EntryView>)
    ensures
        upsert_all(upsert_all(m, batch), batch) == upsert_all(m, batch),
{
    lemma_upsert_all_overlay(m, batch);
    lemma_upsert_all_overlay(upsert_all(m, batch), batch);
    assert(upsert_all(upsert_all(m, batch), batch) =~= upsert_all(m, batch));
}

/// Applying a batch to a fresh index, once or twice, gives the same index.
pub proof fn lemma_fresh_replay(batch: Seq<EntryView>)
    ensures
        upsert_all(upsert_all(IndexMap::empty(), batch), batch) == upsert_all(IndexMap::empty(), batch),
        upsert_all(IndexMap::empty(), batch) == map_of(batch),
{
    lemma_replay_idempotent(IndexMap::empty(), batch);
    lemma_upsert_all_overlay(IndexMap::empty(), batch);
    assert(IndexMap::empty().union_prefer_right(map_of(batch)) =~= map_of(batch));
}

} // verus!
