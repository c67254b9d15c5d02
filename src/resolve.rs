//! How a fetched document yields the (identifier, digest) pair it is indexed
//! under, and the record published when it cannot be indexed.
use sha2::Digest;
use vstd::prelude::*;
use vstd::string::*;

verus! {

/// The SHA-256 of some bytes, as 64 lowercase hex digits.
pub uninterp spec fn sha256_hex_of(data: Seq<u8>) -> Seq<char>;

/// Relies on sha2::Sha256::digest, printed by generic_array's `{:x}`: two
/// lowercase hex digits for each of the 32 bytes; the text depends on the
/// bytes alone.
#[verifier::external_body]
fn sha256_hex(data: &[u8]) -> (r: String)
    ensures
        r@ == sha256_hex_of(data@),
        r@.len() == 64,
{
    format!("{:x}", sha2::Sha256::digest(data))
}

/// A string as a JSON string literal (quoted and escaped), when serde_json
/// writes one.
pub uninterp spec fn json_string_of(s: Seq<char>) -> Option<Seq<char>>;

pub open spec fn opt_view(o: Option<String>) -> Option<Seq<char>> {
    match o {
        Some(s) => Some(s@),
        None => None,
    }
}

/// Relies on serde_json::to_string on a `str`: the JSON text of the string;
/// the result depends on the characters alone.
#[verifier::external_body]
fn json_string(s: &str) -> (r: Option<String>)
    ensures
        opt_view(r) == json_string_of(s@),
{
    serde_json::to_string(s).ok()
}

/// How the identifier and digest of a document are obtained.
#[derive(Debug, Clone, Copy, PartialEq, Eq, Structural)]
pub enum Policy {
    /// Both come with the document: an identifier supplied by the store and a
    /// precomputed digest annotation. A document lacking either is skipped.
    Annotated,
    /// The identifier is parsed from the content and the digest is the
    /// SHA-256 of the content. A document without identifier is reported.
    ParseAndHash,
}

/// A fetched document: its bytes and what is known of it.
pub struct Document {
    pub data: Vec<u8>,
    /// The precomputed digest annotation, if any.
    pub digest: Option<String>,
    /// The identifier: supplied by the store, or parsed from the content.
    pub identifier: Option<String>,
}

/// What a document amounts to for the index.
#[derive(Debug, Clone, PartialEq, Eq)]
pub enum Resolution {
    /// Index it under this identifier and digest.
    Entry { identifier: String, digest: String },
    /// Leave it out, silently.
    Skip,
    /// Leave it out, and report why.
    Reject { reason: String },
}

/// The meaning of a `Resolution`.
pub enum ResolutionView {
    Entry { identifier: Seq<char>, digest: Seq<char> },
    Skip,
    Reject { reason: Seq<char> },
}

impl Resolution {
    pub open spec fn view(&self) -> ResolutionView {
        match self {
            Resolution::Entry { identifier, digest } => ResolutionView::Entry {
                identifier: identifier@,
                digest: digest@,
            },
            Resolution::Skip => ResolutionView::Skip,
            Resolution::Reject { reason } => ResolutionView::Reject { reason: reason@ },
        }
    }
}

/// The reason reported for a document from which no identifier was parsed.
pub open spec fn no_identifier_reason() -> Seq<char> {
    "Unable to locate package URL (pURL) for SBOM"@
}

/// The resolution of a document under a policy, given the digest of its content.
pub open spec fn resolve_spec(
    policy: Policy,
    identifier: Option<Seq<char>>,
    annotation: Option<Seq<char>>,
    content_digest: Seq<char>,
) -> ResolutionView {
    match policy {
        Policy::Annotated => match (identifier, annotation) {
            (Some(i), Some(d)) => ResolutionView::Entry { identifier: i, digest: d },
            _ => ResolutionView::Skip,
        },
        Policy::ParseAndHash => match identifier {
            Some(i) => ResolutionView::Entry { identifier: i, digest: content_digest },
            None => ResolutionView::Reject { reason: no_identifier_reason() },
        },
    }
}

/// Resolves a document, given the digest of its content (used by
/// `ParseAndHash` only).
pub fn resolve_with_digest(policy: Policy, doc: &Document, content_digest: &String) -> (r: Resolution)
    ensures
        r@ == resolve_spec(policy, opt_view(doc.identifier), opt_view(doc.digest), content_digest@),
{
    match policy {
        Policy::Annotated => match (&doc.identifier, &doc.digest) {
            (Some(i), Some(d)) => Resolution::Entry { identifier: i.clone(), digest: d.clone() },
            _ => Resolution::Skip,
        },
        Policy::ParseAndHash => match &doc.identifier {
            Some(i) => Resolution::Entry { identifier: i.clone(), digest: content_digest.clone() },
            None => Resolution::Reject {
                reason: String::from_str("Unable to locate package URL (pURL) for SBOM"),
            },
        },
    }
}

/// Resolves a document; under `ParseAndHash` its digest is the SHA-256 of its bytes.
pub fn resolve(policy: Policy, doc: &Document) -> (r: Resolution)
    ensures
        r@ == resolve_spec(policy, opt_view(doc.identifier), opt_view(doc.digest), sha256_hex_of(doc.data@)),
        policy == Policy::ParseAndHash ==> sha256_hex_of(doc.data@).len() == 64,
{
    match policy {
        Policy::Annotated => {
            let none = String::new();
            resolve_with_digest(policy, doc, &none)
        },
        Policy::ParseAndHash => {
            let h = sha256_hex(doc.data.as_slice());
            resolve_with_digest(policy, doc, &h)
        },
    }
}

/// The `{"error": .., "key": ..}` record published when a document is not indexed.
pub open spec fn failure_record_spec(key: Seq<char>, error: Seq<char>) -> Option<Seq<char>> {
    match (json_string_of(error), json_string_of(key)) {
        (Some(e), Some(k)) => Some("{\"error\":"@ + e + ",\"key\":"@ + k + "}"@),
        _ => None,
    }
}

/// The JSON record of a failure: the error text and the document key.
pub fn failure_record(key: &String, error: &String) -> (r: Option<String>)
    ensures
        opt_view(r) == failure_record_spec(key@, error@),
{
    let e = json_string(error.as_str());
    let k = json_string(key.as_str());
    match (e, k) {
        (Some(e), Some(k)) => {
            let mut out = String::new();
            out.append("{\"error\":");
            out.append(e.as_str());
            out.append(",\"key\":");
            out.append(k.as_str());
            out.append("}");
            assert(out@ =~= "{\"error\":"@ + e@ + ",\"key\":"@ + k@ + "}"@);
            Some(out)
        },
        _ => None,
    }
}

} // verus!
