//! Storage keys and notifications: which notifications are actionable, which
//! key is the index's own snapshot, and how a document key is read from an
//! object key.
use vstd::prelude::*;

verus! {

/// A decoded storage notification: the kind of change and the object key.
pub struct StorageEvent {
    pub event_name: String,
    pub key: String,
}

/// The notification name of a stored object.
pub open spec fn put_event_name() -> Seq<char> {
    "s3:ObjectCreated:Put"@
}

/// Whether `s` begins with `p`.
pub open spec fn has_prefix(s: Seq<char>, p: Seq<char>) -> bool {
    p.len() <= s.len() && s.take(p.len() as int) == p
}

fn starts_with(s: &str, p: &str) -> (r: bool)
    ensures
        r == has_prefix(s@, p@),
{
    let n = s.unicode_len();
    let m = p.unicode_len();
    if m > n {
        return false;
    }
    let mut i: usize = 0;
    while i < m
        invariant
            m == p@.len(),
            n == s@.len(),
            m <= n,
            i <= m,
            forall|j: int| 0 <= j < i ==> s@[j] == p@[j],
        decreases m - i,
    {
        if s.get_char(i) != p.get_char(i) {
            assert(s@.take(m as int)[i as int] != p@[i as int]);
            return false;
        }
        i = i + 1;
    }
    assert(s@.take(m as int) =~= p@);
    true
}

impl StorageEvent {
    /// Whether the notification reports a newly stored object.
    pub fn is_put(&self) -> (r: bool)
        ensures
            r == (self.event_name@ == put_event_name()),
    {
        let name = self.event_name.as_str();
        let put = "s3:ObjectCreated:Put";
        proof {
            assert(put@.take(put@.len() as int) =~= put@);
        }
        let r = name.unicode_len() == put.unicode_len() && starts_with(name, put);
        proof {
            if r {
                assert(name@ =~= put@);
            }
        }
        r
    }
}

/// Where the store keeps documents and the index snapshot.
pub struct StoreLayout {
    /// The object key under which the index snapshot is written.
    pub index_key: String,
    /// The prefix of object keys that hold documents.
    pub document_prefix: String,
}

/// The document key within an object key: what follows the document prefix,
/// when there is something.
pub open spec fn extract_key_spec(prefix: Seq<char>, key: Seq<char>) -> Option<Seq<char>> {
    if has_prefix(key, prefix) && prefix.len() < key.len() {
        Some(key.skip(prefix.len() as int))
    } else {
        None
    }
}

impl StoreLayout {
    /// Whether an object key is the index snapshot itself.
    pub fn is_index(&self, key: &String) -> (r: bool)
        ensures
            r == (key@ == self.index_key@),
    {
        *key == self.index_key
    }

    /// The document key of an object key, if it names a document.
    pub fn extract_key(&self, key: &String) -> (r: Option<String>)
        ensures
            match r {
                Some(k) => extract_key_spec(self.document_prefix@, key@) == Some(k@),
                None => extract_key_spec(self.document_prefix@, key@) is None,
            },
    {
        let s = key.as_str();
        let p = self.document_prefix.as_str();
        let n = s.unicode_len();
        let m = p.unicode_len();
        if m < n && starts_with(s, p) {
            let rest = s.substring_char(m, n);
            let r = rest.to_string();
            assert(r@ =~= key@.skip(m as int));
            Some(r)
        } else {
            None
        }
    }
}

} // verus!
