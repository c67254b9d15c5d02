//! The indexing loop's decisions. Each call takes what the outside world
//! reported (a notification, a fetched document, a timer tick, the outcome of
//! a push or a commit) and returns the one outside action to perform next.
//! Consumed events are committed only after a snapshot holding their effect
//! was pushed.
use crate::index::{entry_check, upsert_spec, EntryView, Index, IndexMap, snapshot_of};
use crate::layout::{extract_key_spec, put_event_name, StorageEvent, StoreLayout};
use crate::resolve::{
    failure_record, failure_record_spec, opt_view, resolve, resolve_spec, sha256_hex_of, Document,
    Policy, Resolution, ResolutionView,
};
use vstd::prelude::*;

verus! {

/// How the loop is set up.
pub struct Config {
    pub layout: StoreLayout,
    pub policy: Policy,
    /// Whether a failed publication of an `indexed` or `failed` notice ends the loop.
    pub stop_on_publish_error: bool,
}

/// The meaning of a `Config`.
pub struct ConfigView {
    pub index_key: Seq<char>,
    pub document_prefix: Seq<char>,
    pub policy: Policy,
    pub stop_on_publish_error: bool,
}

impl Config {
    pub open spec fn view(&self) -> ConfigView {
        ConfigView {
            index_key: self.layout.index_key@,
            document_prefix: self.layout.document_prefix@,
            policy: self.policy,
            stop_on_publish_error: self.stop_on_publish_error,
        }
    }
}

/// Where the loop stands between two outside operations.
pub enum Phase {
    /// Waiting for an event or a tick.
    Ready,
    /// The document of `key` is being fetched for event `event`.
    Fetching { event: u64, key: String },
    /// A snapshot is being pushed.
    Pushing,
    /// The pending events are being committed.
    Committing,
}

pub enum PhaseView {
    Ready,
    Fetching { event: u64, key: Seq<char> },
    Pushing,
    Committing,
}

impl Phase {
    pub open spec fn view(&self) -> PhaseView {
        match self {
            Phase::Ready => PhaseView::Ready,
            Phase::Fetching { event, key } => PhaseView::Fetching { event: *event, key: key@ },
            Phase::Pushing => PhaseView::Pushing,
            Phase::Committing => PhaseView::Committing,
        }
    }
}

/// The outside operation that the loop asks for.
#[derive(Debug, Clone, PartialEq, Eq)]
pub enum Action {
    Nothing,
    /// Fetch the document stored under this key.
    Fetch(String),
    /// Publish on the `indexed` topic this document key.
    PublishIndexed(String),
    /// Publish on the `failed` topic this record.
    PublishFailed(String),
    /// Store this snapshot under the index key.
    Push(Vec<u8>),
    /// Commit these events to the bus.
    Commit(Vec<u64>),
}

pub enum ActionView {
    Nothing,
    Fetch(Seq<char>),
    PublishIndexed(Seq<char>),
    PublishFailed(Seq<char>),
    Push(Seq<u8>),
    Commit(Seq<u64>),
}

impl Action {
    pub open spec fn view(&self) -> ActionView {
        match self {
            Action::Nothing => ActionView::Nothing,
            Action::Fetch(k) => ActionView::Fetch(k@),
            Action::PublishIndexed(k) => ActionView::PublishIndexed(k@),
            Action::PublishFailed(p) => ActionView::PublishFailed(p@),
            Action::Push(b) => ActionView::Push(b@),
            Action::Commit(e) => ActionView::Commit(e@),
        }
    }
}

/// The loop's state: the index, the number of successful upserts since the
/// last flush, the consumed but uncommitted events, and the phase.
pub struct LoopState {
    pub index: IndexMap,
    pub changes: nat,
    pub pending: Seq<u64>,
    pub phase: PhaseView,
}

pub open spec fn notice_view(n: Option<StorageEvent>) -> Option<(Seq<char>, Seq<char>)> {
    match n {
        Some(e) => Some((e.event_name@, e.key@)),
        None => None,
    }
}

/// The document key to fetch for a notification: only a stored object that is
/// not the index snapshot and whose key names a document.
pub open spec fn fetch_plan(c: ConfigView, notice: Option<(Seq<char>, Seq<char>)>) -> Option<Seq<char>> {
    match notice {
        Some((name, key)) => if name == put_event_name() && key != c.index_key {
            extract_key_spec(c.document_prefix, key)
        } else {
            None
        },
        None => None,
    }
}

/// An event arrives (with its notification, if it decoded).
pub open spec fn event_step(c: ConfigView, s: LoopState, event: u64, notice: Option<(Seq<char>, Seq<char>)>) -> (LoopState, ActionView) {
    match fetch_plan(c, notice) {
        Some(k) => (LoopState { phase: PhaseView::Fetching { event, key: k }, ..s }, ActionView::Fetch(k)),
        None => (LoopState { pending: s.pending.push(event), ..s }, ActionView::Nothing),
    }
}

/// The notice published when the document of `key` is not indexed.
pub open spec fn failed_action(key: Seq<char>, error: Seq<char>) -> ActionView {
    match failure_record_spec(key, error) {
        Some(p) => ActionView::PublishFailed(p),
        None => ActionView::Nothing,
    }
}

pub open spec fn bump(n: nat) -> nat {
    if n < u64::MAX { n + 1 } else { n }
}

/// The fetched document has been resolved: upsert it or report it; in every
/// case the event joins the pending ones.
pub open spec fn resolved_step(s: LoopState, res: ResolutionView) -> (LoopState, ActionView)
    recommends
        s.phase is Fetching,
{
    let event = s.phase->Fetching_event;
    let key = s.phase->Fetching_key;
    let done = LoopState { pending: s.pending.push(event), phase: PhaseView::Ready, ..s };
    match res {
        ResolutionView::Entry { identifier, digest } => match entry_check(identifier, digest) {
            Ok(_) => (
                LoopState {
                    index: upsert_spec(s.index, identifier, digest, key),
                    changes: bump(s.changes),
                    ..done
                },
                ActionView::PublishIndexed(key),
            ),
            Err(e) => (done, failed_action(key, e.message_spec())),
        },
        ResolutionView::Skip => (done, ActionView::Nothing),
        ResolutionView::Reject { reason } => (done, failed_action(key, reason)),
    }
}

/// What a fetch outcome resolves to: a failed fetch is skipped.
pub open spec fn fetched_resolution(c: ConfigView, doc: Option<Document>) -> ResolutionView {
    match doc {
        Some(d) => resolve_spec(c.policy, opt_view(d.identifier), opt_view(d.digest), sha256_hex_of(d.data@)),
        None => ResolutionView::Skip,
    }
}

/// The timer fires; `snapshot` is the serialized index, if it serialized.
pub open spec fn tick_step(s: LoopState, snapshot: Option<Seq<u8>>) -> (LoopState, ActionView) {
    if s.changes == 0 {
        (s, ActionView::Nothing)
    } else {
        match snapshot {
            Some(b) => (LoopState { phase: PhaseView::Pushing, ..s }, ActionView::Push(b)),
            None => (s, ActionView::Nothing),
        }
    }
}

/// The snapshot push finished: commit the pending events only if it succeeded.
pub open spec fn pushed_step(s: LoopState, ok: bool) -> (LoopState, ActionView) {
    if ok {
        (LoopState { phase: PhaseView::Committing, ..s }, ActionView::Commit(s.pending))
    } else {
        (LoopState { phase: PhaseView::Ready, ..s }, ActionView::Nothing)
    }
}

/// The commit finished: on success the flush cycle is complete.
pub open spec fn committed_step(s: LoopState, ok: bool) -> LoopState {
    if ok {
        LoopState { pending: Seq::empty(), changes: 0, phase: PhaseView::Ready, ..s }
    } else {
        LoopState { phase: PhaseView::Ready, ..s }
    }
}

/// The indexing loop's state.
pub struct Indexer {
    config: Config,
    index: Index,
    changes: u64,
    pending: Vec<u64>,
    phase: Phase,
}

impl Indexer {
    pub closed spec fn view(&self) -> LoopState {
        LoopState {
            index: self.index@,
            changes: self.changes as nat,
            pending: self.pending@,
            phase: self.phase.view(),
        }
    }

    pub closed spec fn config(&self) -> ConfigView {
        self.config.view()
    }

    /// The snapshot that the index serializes to now.
    pub closed spec fn snapshot_spec(&self) -> Option<Seq<u8>> {
        snapshot_of(self.index.rows())
    }

    pub closed spec fn wf(&self) -> bool {
        self.index.wf()
    }

    /// A loop with an empty index and nothing pending.
    pub fn new(config: Config) -> (r: Indexer)
        ensures
            r.wf(),
            r.config() == config.view(),
            r@ == (LoopState {
                index: IndexMap::empty(),
                changes: 0,
                pending: Seq::empty(),
                phase: PhaseView::Ready,
            }),
    {
        Indexer { config, index: Index::new(), changes: 0, pending: Vec::new(), phase: Phase::Ready }
    }

    /// A loop that starts from an existing index.
    pub fn with_index(config: Config, index: Index) -> (r: Indexer)
        requires
            index.wf(),
        ensures
            r.wf(),
            r.config() == config.view(),
            r@ == (LoopState { index: index@, changes: 0, pending: Seq::empty(), phase: PhaseView::Ready }),
    {
        Indexer { config, index, changes: 0, pending: Vec::new(), phase: Phase::Ready }
    }

    /// Whether the loop waits for an event or a tick.
    pub fn is_ready(&self) -> (r: bool)
        ensures
            r == (self@.phase is Ready),
    {
        match self.phase {
            Phase::Ready => true,
            _ => false,
        }
    }

    /// Number of successful upserts since the last completed flush.
    pub fn changes(&self) -> (r: u64)
        ensures
            r == self@.changes,
    {
        self.changes
    }

    /// The consumed events not yet committed, in the order they came.
    pub fn pending(&self) -> (r: Vec<u64>)
        ensures
            r@ == self@.pending,
    {
        copy_ids(&self.pending)
    }

    /// The (digest, storage key) indexed under an identifier.
    pub fn lookup(&self, identifier: &String) -> (r: Option<(String, String)>)
        requires
            self.wf(),
        ensures
            match r {
                Some(p) => self@.index.contains_key(identifier@) && self@.index[identifier@] == (p.0@, p.1@),
                None => !self@.index.contains_key(identifier@),
            },
    {
        self.index.get(identifier)
    }

    /// Number of identifiers indexed.
    pub fn indexed(&self) -> (r: usize)
        requires
            self.wf(),
        ensures
            r == self@.index.dom().len(),
    {
        self.index.len()
    }

    /// An event was pulled from the bus, with its notification if the payload
    /// decoded. Asks for a fetch, or records the event as consumed.
    pub fn on_event(&mut self, event: u64, notice: Option<StorageEvent>) -> (r: Action)
        requires
            old(self).wf(),
            old(self)@.phase is Ready,
        ensures
            final(self).wf(),
            final(self).config() == old(self).config(),
            (final(self)@, r@) == event_step(old(self).config(), old(self)@, event, notice_view(notice)),
    {
        let plan = match &notice {
            Some(n) => if n.is_put() && !self.config.layout.is_index(&n.key) {
                self.config.layout.extract_key(&n.key)
            } else {
                None
            },
            None => None,
        };
        match plan {
            Some(k) => {
                self.phase = Phase::Fetching { event, key: k.clone() };
                Action::Fetch(k)
            },
            None => {
                self.pending.push(event);
                Action::Nothing
            },
        }
    }

    fn failed(key: &String, error: &String) -> (r: Action)
        ensures
            r@ == failed_action(key@, error@),
    {
        match failure_record(key, error) {
            Some(p) => Action::PublishFailed(p),
            None => Action::Nothing,
        }
    }

    /// The fetched document has been resolved.
    pub fn on_resolved(&mut self, res: Resolution) -> (r: Action)
        requires
            old(self).wf(),
            old(self)@.phase is Fetching,
        ensures
            final(self).wf(),
            final(self).config() == old(self).config(),
            (final(self)@, r@) == resolved_step(old(self)@, res@),
    {
        let (event, key) = match &self.phase {
            Phase::Fetching { event, key } => (*event, key.clone()),
            _ => (0, String::new()),
        };
        self.pending.push(event);
        self.phase = Phase::Ready;
        match res {
            Resolution::Entry { identifier, digest } => match self.index.upsert(&identifier, &digest, &key) {
                Ok(_) => {
                    if self.changes < u64::MAX {
                        self.changes = self.changes + 1;
                    }
                    Action::PublishIndexed(key)
                },
                Err(e) => Self::failed(&key, &e.message()),
            },
            Resolution::Skip => Action::Nothing,
            Resolution::Reject { reason } => Self::failed(&key, &reason),
        }
    }

    /// The fetch finished: `None` when the document could not be fetched.
    pub fn on_fetched(&mut self, doc: Option<Document>) -> (r: Action)
        requires
            old(self).wf(),
            old(self)@.phase is Fetching,
        ensures
            final(self).wf(),
            final(self).config() == old(self).config(),
            (final(self)@, r@) == resolved_step(old(self)@, fetched_resolution(old(self).config(), doc)),
    {
        let res = match &doc {
            Some(d) => resolve(self.config.policy, d),
            None => Resolution::Skip,
        };
        self.on_resolved(res)
    }

    /// The flush timer fired: asks for a snapshot push when something changed.
    pub fn on_tick(&mut self) -> (r: Action)
        requires
            old(self).wf(),
            old(self)@.phase is Ready,
        ensures
            final(self).wf(),
            final(self).config() == old(self).config(),
            final(self).snapshot_spec() == old(self).snapshot_spec(),
            (final(self)@, r@) == tick_step(old(self)@, old(self).snapshot_spec()),
    {
        if self.changes == 0 {
            return Action::Nothing;
        }
        match self.index.snapshot() {
            Ok(bytes) => {
                self.phase = Phase::Pushing;
                Action::Push(bytes)
            },
            Err(_) => Action::Nothing,
        }
    }

    /// The snapshot push finished; `ok` tells whether it succeeded.
    pub fn on_pushed(&mut self, ok: bool) -> (r: Action)
        requires
            old(self).wf(),
            old(self)@.phase is Pushing,
        ensures
            final(self).wf(),
            final(self).config() == old(self).config(),
            (final(self)@, r@) == pushed_step(old(self)@, ok),
    {
        if ok {
            self.phase = Phase::Committing;
            Action::Commit(copy_ids(&self.pending))
        } else {
            self.phase = Phase::Ready;
            Action::Nothing
        }
    }

    /// The commit finished; `ok` tells whether it succeeded.
    pub fn on_committed(&mut self, ok: bool)
        requires
            old(self).wf(),
            old(self)@.phase is Committing,
        ensures
            final(self).wf(),
            final(self).config() == old(self).config(),
            final(self)@ == committed_step(old(self)@, ok),
    {
        if ok {
            self.pending.clear();
            self.changes = 0;
        }
        self.phase = Phase::Ready;
    }

    /// Whether the loop goes on after publishing a notice; `ok` tells whether
    /// the publication succeeded.
    pub fn continues_after_publish(&self, ok: bool) -> (r: bool)
        ensures
            r == (ok || !self.config().stop_on_publish_error),
    {
        ok || !self.config.stop_on_publish_error
    }
}

/// A notification for the index's own snapshot key never leads to a fetch,
/// and so never to an upsert, whatever the configuration: the event is only
/// recorded as consumed.
pub proof fn lemma_self_write_excluded(c: ConfigView, s: LoopState, event: u64, name: Seq<char>, key: Seq<char>)
    requires
        key == c.index_key,
    ensures
        event_step(c, s, event, Some((name, key))) == (LoopState { pending: s.pending.push(event), ..s }, ActionView::Nothing),
{
}

/// A commit is asked for exactly when the snapshot push of the cycle
/// succeeded, and then for all pending events; no other step asks for one.
pub proof fn lemma_commit_only_after_push(
    c: ConfigView,
    s: LoopState,
    ok: bool,
    snapshot: Option<Seq<u8>>,
    event: u64,
    notice: Option<(Seq<char>, Seq<char>)>,
    res: ResolutionView,
)
    ensures
        pushed_step(s, ok).1 is Commit <==> ok,
        ok ==> pushed_step(s, ok).1 == ActionView::Commit(s.pending),
        !(tick_step(s, snapshot).1 is Commit),
        !(event_step(c, s, event, notice).1 is Commit),
        !(resolved_step(s, res).1 is Commit),
{
}

/// With no successful upsert since the last flush, a tick serializes, pushes
/// and commits nothing, and changes nothing.
pub proof fn lemma_clean_tick_is_idle(s: LoopState, snapshot: Option<Seq<u8>>)
    requires
        s.changes == 0,
    ensures
        tick_step(s, snapshot) == (s, ActionView::Nothing),
{
}

/// The change count moves only with a successful upsert (announced by an
/// `indexed` notice) and is cleared only by a successful commit.
pub proof fn lemma_changes_track_upserts(c: ConfigView, s: LoopState, event: u64, notice: Option<(Seq<char>, Seq<char>)>, res: ResolutionView, ok: bool)
    ensures
        event_step(c, s, event, notice).0.changes == s.changes,
        resolved_step(s, res).0.changes != s.changes ==> resolved_step(s, res).1 is PublishIndexed,
        resolved_step(s, res).0.index != s.index ==> resolved_step(s, res).1 is PublishIndexed,
        pushed_step(s, ok).0.changes == s.changes,
        committed_step(s, ok).changes == (if ok { 0 } else { s.changes }),
{
}

/// A fetched document that lacks what its policy needs (the digest annotation,
/// or a parsed identifier) changes neither the index nor the change count,
/// brings no `indexed` notice, and the event is consumed so that the loop goes
/// on with the next one.
pub proof fn lemma_unresolvable_document_skipped(c: ConfigView, s: LoopState, d: Document)
    requires
        s.phase is Fetching,
        (c.policy == Policy::Annotated && d.digest is None) || (c.policy == Policy::ParseAndHash
            && d.identifier is None),
    ensures
        ({
            let (t, a) = resolved_step(s, fetched_resolution(c, Some(d)));
            &&& t.index == s.index
            &&& t.changes == s.changes
            &&& !(a is PublishIndexed)
            &&& t.pending == s.pending.push(s.phase->Fetching_event)
            &&& t.phase is Ready
        }),
{
}

fn copy_ids(v: &Vec<u64>) -> (r: Vec<u64>)
    ensures
        r@ == v@,
{
    let mut r: Vec<u64> = Vec::new();
    let mut i: usize = 0;
    while i < v.len()
        invariant
            i <= v.len(),
            r@ == v@.take(i as int),
        decreases v.len() - i,
    {
        r.push(v[i]);
        assert(v@.take(i + 1) =~= v@.take(i as int).push(v@[i as int]));
        i = i + 1;
    }
    assert(v@.take(i as int) =~= v@);
    r
}

} // verus!
