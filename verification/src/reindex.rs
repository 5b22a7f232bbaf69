//! Rebuilding the manifest: every archive of the store is fetched and
//! hashed, and the manifest of them all is published last.

use vstd::prelude::*;
use vstd::string::*;

use crate::error::{RespError, RespErrorView, INTERNAL_SERVER_ERROR};
use crate::hasher::{hex_of, to_hex, xxh3_64, Hasher};
use crate::manifest::{lemma_sorted_by_ident, lemma_sorted_strictly, manifest_of};
use crate::naming::{
    has_archive_suffix, ident_for, ident_of, lemma_suffixed_names_have_their_own_ident,
    manifest_key, manifest_key_str,
};
use crate::store::{is_archive, StoredObject, StoredObjectView};
use crate::types::{
    distinct_idents, strictly_ascending, Mod, ModView, Repository, RepositoryView,
};

verus! {

/// What a rebuild waits for.
#[derive(Debug, Clone, Copy, PartialEq, Eq, Structural)]
pub enum ReindexPhase {
    /// The store names the next object.
    Listing,
    /// The store hands out the next piece of an archive's content.
    Reading,
    /// The manifest is turned into its document.
    Serializing,
    /// The store overwrites the published manifest.
    Publishing,
    /// The manifest is published.
    Done,
    /// The rebuild was given up; the published manifest is as it was.
    Failed,
}

/// What a rebuild asked for and did not get.
#[derive(Debug, Clone, Copy, PartialEq, Eq, Structural)]
pub enum ReindexFault {
    /// The store could not name its objects.
    List,
    /// The store could not hand out an object.
    Get,
    /// The object came as a file, which could not be read.
    ReadFile,
    /// The object came as a stream, which broke off.
    ReadStream,
    /// The manifest could not be turned into its document.
    Serialize,
    /// The store could not take the document.
    Put,
}

/// What happened to what the rebuild asked for.
#[derive(Debug, PartialEq, Eq)]
pub enum ReindexEvent {
    /// The store named this object.
    Object(StoredObject),
    /// The store has named all its objects.
    EndOfListing,
    /// The next piece of the content of the object that is read.
    Content(Vec<u8>),
    /// The content of the object that is read has ended.
    EndOfContent,
    /// The manifest's document.
    Serialized(String),
    /// The store holds the new manifest.
    Published,
    /// What was asked for failed.
    Failed(ReindexFault),
}

/// What the rebuild asks for next.
#[derive(Debug, PartialEq, Eq)]
pub enum ReindexAction {
    /// Ask the store for the next object.
    ListNext,
    /// Get the object at `location` and hand over its content from the start.
    Fetch { location: String },
    /// Hand over the next piece of the content.
    ReadNext,
    /// Turn this manifest into its document.
    Serialize(Repository),
    /// Store `document` under `key`, in place of what is there.
    Publish { key: String, document: String },
    /// The rebuild is done.
    Finish,
    /// The rebuild failed, and how.
    Abort(RespError),
}

/// A rebuild in progress.
pub struct Reindexer {
    phase: ReindexPhase,
    public_url: String,
    title: String,
    mods: Vec<Mod>,
    current: Option<StoredObject>,
    hasher: Hasher,
}

/// A [`Reindexer`] as mathematical values.
pub ghost struct ReindexView {
    pub phase: ReindexPhase,
    pub public_url: Seq<char>,
    pub title: Seq<char>,
    /// The entries of the archives that were read to their end, in the
    /// store's order.
    pub entries: Seq<ModView>,
    /// The archive that is read.
    pub current: Option<StoredObjectView>,
    /// What was read of it so far.
    pub content: Seq<u8>,
}

/// A [`ReindexEvent`] as mathematical values.
pub ghost enum ReindexEventView {
    Object(StoredObjectView),
    EndOfListing,
    Content(Seq<u8>),
    EndOfContent,
    Serialized(Seq<char>),
    Published,
    Failed(ReindexFault),
}

/// A [`ReindexAction`] as mathematical values.
pub ghost enum ReindexActionView {
    ListNext,
    Fetch { location: Seq<char> },
    ReadNext,
    Serialize(RepositoryView),
    Publish { key: Seq<char>, document: Seq<char> },
    Finish,
    Abort(RespErrorView),
}

impl View for Reindexer {
    type V = ReindexView;

    closed spec fn view(&self) -> ReindexView {
        ReindexView {
            phase: self.phase,
            public_url: self.public_url@,
            title: self.title@,
            entries: self.mods.deep_view(),
            current: match self.current {
                Some(object) => Some(object@),
                None => None,
            },
            content: self.hasher@,
        }
    }
}

impl View for ReindexEvent {
    type V = ReindexEventView;

    open spec fn view(&self) -> ReindexEventView {
        match *self {
            ReindexEvent::Object(object) => ReindexEventView::Object(object@),
            ReindexEvent::EndOfListing => ReindexEventView::EndOfListing,
            ReindexEvent::Content(bytes) => ReindexEventView::Content(bytes@),
            ReindexEvent::EndOfContent => ReindexEventView::EndOfContent,
            ReindexEvent::Serialized(document) => ReindexEventView::Serialized(document@),
            ReindexEvent::Published => ReindexEventView::Published,
            ReindexEvent::Failed(fault) => ReindexEventView::Failed(fault),
        }
    }
}

impl View for ReindexAction {
    type V = ReindexActionView;

    open spec fn view(&self) -> ReindexActionView {
        match *self {
            ReindexAction::ListNext => ReindexActionView::ListNext,
            ReindexAction::Fetch { location } => ReindexActionView::Fetch { location: location@ },
            ReindexAction::ReadNext => ReindexActionView::ReadNext,
            ReindexAction::Serialize(repository) => ReindexActionView::Serialize(repository@),
            ReindexAction::Publish { key, document } => ReindexActionView::Publish {
                key: key@,
                document: document@,
            },
            ReindexAction::Finish => ReindexActionView::Finish,
            ReindexAction::Abort(e) => ReindexActionView::Abort(e@),
        }
    }
}

/// The manifest entry of the archive `object` whose content has the digest
/// `digest`.
pub open spec fn entry_of(object: StoredObjectView, digest: u64) -> ModView {
    ModView {
        ident: ident_of(object.name->0),
        file: object.location,
        bytes: object.size,
        xxhsum: hex_of(digest as nat),
    }
}

/// A rebuild that has seen nothing of the store yet.
pub open spec fn fresh_reindex(public_url: Seq<char>, title: Seq<char>) -> ReindexView {
    ReindexView {
        phase: ReindexPhase::Listing,
        public_url,
        title,
        entries: Seq::empty(),
        current: None,
        content: Seq::empty(),
    }
}

/// What is reported when the rebuild did not get what `fault` names.
pub open spec fn fault_message(fault: ReindexFault) -> Seq<char> {
    match fault {
        ReindexFault::List => "failed to read object store"@,
        ReindexFault::Get => "failed to get object from object store"@,
        ReindexFault::ReadFile => "failed to read file"@,
        ReindexFault::ReadStream => "failed to read stream from object store"@,
        ReindexFault::Serialize => "failed to serialize repository index"@,
        ReindexFault::Put => "failed to put index to object store"@,
    }
}

/// The rebuild `state` given up, with what is reported.
pub open spec fn aborted(state: ReindexView, message: Seq<char>) -> (
    ReindexView,
    ReindexActionView,
) {
    (
        ReindexView {
            phase: ReindexPhase::Failed,
            entries: Seq::empty(),
            current: None,
            content: Seq::empty(),
            ..state
        },
        ReindexActionView::Abort(
            RespErrorView { status: INTERNAL_SERVER_ERROR as int, message },
        ),
    )
}

/// Whether a rebuild in `phase` still waits for something.
pub open spec fn in_progress(phase: ReindexPhase) -> bool {
    !(phase is Done || phase is Failed)
}

/// The rebuild's transition: from the state `state` and the event `event`
/// to the next state and what to ask for.
pub open spec fn reindex_transition(state: ReindexView, event: ReindexEventView) -> (
    ReindexView,
    ReindexActionView,
) {
    match (state.phase, event) {
        (ReindexPhase::Listing, ReindexEventView::Object(object)) => if is_archive(object) {
            (
                ReindexView {
                    phase: ReindexPhase::Reading,
                    current: Some(object),
                    content: Seq::empty(),
                    ..state
                },
                ReindexActionView::Fetch { location: object.location },
            )
        } else {
            (state, ReindexActionView::ListNext)
        },
        (ReindexPhase::Listing, ReindexEventView::EndOfListing) => (
            ReindexView { phase: ReindexPhase::Serializing, entries: Seq::empty(), ..state },
            ReindexActionView::Serialize(manifest_of(state.public_url, state.title, state.entries)),
        ),
        (ReindexPhase::Reading, ReindexEventView::Content(bytes)) => if state.content.len()
            + bytes.len() > usize::MAX {
            aborted(state, "object is too large to hash"@)
        } else {
            (ReindexView { content: state.content + bytes, ..state }, ReindexActionView::ReadNext)
        },
        (ReindexPhase::Reading, ReindexEventView::EndOfContent) => (
            ReindexView {
                phase: ReindexPhase::Listing,
                entries: state.entries.push(entry_of(state.current->0, xxh3_64(state.content))),
                current: None,
                content: Seq::empty(),
                ..state
            },
            ReindexActionView::ListNext,
        ),
        (ReindexPhase::Serializing, ReindexEventView::Serialized(document)) => (
            ReindexView { phase: ReindexPhase::Publishing, ..state },
            ReindexActionView::Publish { key: manifest_key(), document },
        ),
        (ReindexPhase::Publishing, ReindexEventView::Published) => (
            ReindexView { phase: ReindexPhase::Done, ..state },
            ReindexActionView::Finish,
        ),
        (phase, ReindexEventView::Failed(fault)) => if in_progress(phase) {
            aborted(state, fault_message(fault))
        } else {
            aborted(state, "reply does not answer the pending request"@)
        },
        _ => aborted(state, "reply does not answer the pending request"@),
    }
}

/// What holds of a rebuild at every step: an object is read exactly in the
/// reading phase, and it is an archive; outside of it nothing is held back.
pub open spec fn reindex_inv(state: ReindexView) -> bool {
    &&& state.phase is Reading <==> state.current is Some
    &&& state.current matches Some(object) ==> is_archive(object)
    &&& !(state.phase is Reading) ==> state.content == Seq::<u8>::empty()
    &&& !(state.phase is Reading || state.phase is Listing) ==> state.entries == Seq::<
        ModView,
    >::empty()
}

impl Reindexer {
    #[verifier::type_invariant]
    spec fn in_order(self) -> bool {
        self.hasher.wf() && reindex_inv(self@)
    }

    /// Starts a rebuild of the manifest of the repository `public_url` with
    /// the title `title`.
    pub fn begin(public_url: &str, title: &str) -> (r: (Reindexer, ReindexAction))
        ensures
            r.0@ == fresh_reindex(public_url@, title@),
            r.1@ == ReindexActionView::ListNext,
            reindex_inv(r.0@),
    {
        let mods: Vec<Mod> = Vec::new();
        assert(mods.deep_view() =~= Seq::<ModView>::empty());
        (
            Reindexer {
                phase: ReindexPhase::Listing,
                public_url: String::from_str(public_url),
                title: String::from_str(title),
                mods,
                current: None,
                hasher: Hasher::new(),
            },
            ReindexAction::ListNext,
        )
    }

    /// What the rebuild waits for.
    pub fn phase(&self) -> (phase: ReindexPhase)
        ensures
            phase == self@.phase,
    {
        self.phase
    }

    fn abort(self, message: &str) -> (r: (Reindexer, ReindexAction))
        ensures
            (r.0@, r.1@) == aborted(self@, message@),
    {
        let mods: Vec<Mod> = Vec::new();
        assert(mods.deep_view() =~= Seq::<ModView>::empty());
        (
            Reindexer {
                phase: ReindexPhase::Failed,
                public_url: self.public_url,
                title: self.title,
                mods,
                current: None,
                hasher: Hasher::new(),
            },
            ReindexAction::Abort(RespError::new(INTERNAL_SERVER_ERROR, message)),
        )
    }

    fn abort_on(self, fault: ReindexFault) -> (r: (Reindexer, ReindexAction))
        ensures
            (r.0@, r.1@) == aborted(self@, fault_message(fault)),
    {
        match fault {
            ReindexFault::List => self.abort("failed to read object store"),
            ReindexFault::Get => self.abort("failed to get object from object store"),
            ReindexFault::ReadFile => self.abort("failed to read file"),
            ReindexFault::ReadStream => self.abort("failed to read stream from object store"),
            ReindexFault::Serialize => self.abort("failed to serialize repository index"),
            ReindexFault::Put => self.abort("failed to put index to object store"),
        }
    }

    fn listed(self, object: StoredObject) -> (r: (Reindexer, ReindexAction))
        requires
            self@.phase is Listing,
        ensures
            (r.0@, r.1@) == reindex_transition(self@, ReindexEventView::Object(object@)),
    {
        proof {
            use_type_invariant(&self);
        }
        if object.archive_name().is_some() {
            let location = object.location.clone();
            (
                Reindexer {
                    phase: ReindexPhase::Reading,
                    public_url: self.public_url,
                    title: self.title,
                    mods: self.mods,
                    current: Some(object),
                    hasher: Hasher::new(),
                },
                ReindexAction::Fetch { location },
            )
        } else {
            (self, ReindexAction::ListNext)
        }
    }

    fn read(self, bytes: Vec<u8>) -> (r: (Reindexer, ReindexAction))
        requires
            self@.phase is Reading,
        ensures
            (r.0@, r.1@) == reindex_transition(self@, ReindexEventView::Content(bytes@)),
    {
        proof {
            use_type_invariant(&self);
        }
        let Reindexer { phase, public_url, title, mods, current, hasher } = self;
        let mut hasher = hasher;
        if hasher.try_update(bytes.as_slice()) {
            (
                Reindexer { phase, public_url, title, mods, current, hasher },
                ReindexAction::ReadNext,
            )
        } else {
            (Reindexer { phase, public_url, title, mods, current, hasher }).abort(
                "object is too large to hash",
            )
        }
    }

    fn finish_object(self) -> (r: (Reindexer, ReindexAction))
        requires
            self@.phase is Reading,
        ensures
            (r.0@, r.1@) == reindex_transition(self@, ReindexEventView::EndOfContent),
    {
        proof {
            use_type_invariant(&self);
        }
        let Reindexer { phase, public_url, title, mods, current, hasher } = self;
        let ghost entries = mods.deep_view();
        let mut mods = mods;
        let digest = hasher.finalize();
        match current {
            Some(object) => {
                match object.archive_name() {
                    Some(name) => {
                        let entry = Mod {
                            ident: ident_for(name),
                            file: object.location.clone(),
                            bytes: object.size,
                            xxhsum: to_hex(digest),
                        };
                        assert(entry@ == entry_of(object@, digest));
                        mods.push(entry);
                        assert(mods.deep_view() =~= entries.push(entry_of(object@, digest)));
                    },
                    None => {
                        assert(false);
                    },
                }
            },
            None => {
                assert(false);
            },
        }
        (
            Reindexer {
                phase: ReindexPhase::Listing,
                public_url,
                title,
                mods,
                current: None,
                hasher: Hasher::new(),
            },
            ReindexAction::ListNext,
        )
    }

    fn serialize(self) -> (r: (Reindexer, ReindexAction))
        requires
            self@.phase is Listing,
        ensures
            (r.0@, r.1@) == reindex_transition(self@, ReindexEventView::EndOfListing),
    {
        proof {
            use_type_invariant(&self);
        }
        let Reindexer { phase, public_url, title, mods, current, hasher } = self;
        let repository = Repository::build(public_url.as_str(), title.as_str(), mods);
        let mods: Vec<Mod> = Vec::new();
        assert(mods.deep_view() =~= Seq::<ModView>::empty());
        (
            Reindexer {
                phase: ReindexPhase::Serializing,
                public_url,
                title,
                mods,
                current,
                hasher,
            },
            ReindexAction::Serialize(repository),
        )
    }

    fn proceed(self, phase: ReindexPhase, action: ReindexAction) -> (r: (Reindexer, ReindexAction))
        requires
            !(phase is Reading || phase is Listing),
            !(self@.phase is Reading || self@.phase is Listing),
        ensures
            r.0@ == (ReindexView { phase, ..self@ }),
            r.1 == action,
    {
        proof {
            use_type_invariant(&self);
        }
        (
            Reindexer {
                phase,
                public_url: self.public_url,
                title: self.title,
                mods: self.mods,
                current: self.current,
                hasher: self.hasher,
            },
            action,
        )
    }

    /// Takes `event` and says what to ask for next. The manifest is handed
    /// out only when the store has named all its objects and every archive
    /// was read to its end, and the store is asked to take the document only
    /// after that; whatever fails before leaves the store as it is.
    pub fn step(self, event: ReindexEvent) -> (r: (Reindexer, ReindexAction))
        ensures
            (r.0@, r.1@) == reindex_transition(self@, event@),
            reindex_inv(self@),
            reindex_inv(r.0@),
    {
        proof {
            use_type_invariant(&self);
            lemma_reindex_inv(self@, event@);
        }
        match event {
            ReindexEvent::Failed(fault) => match self.phase {
                ReindexPhase::Done | ReindexPhase::Failed => self.abort(
                    "reply does not answer the pending request",
                ),
                _ => self.abort_on(fault),
            },
            ReindexEvent::Object(object) => match self.phase {
                ReindexPhase::Listing => self.listed(object),
                _ => self.abort("reply does not answer the pending request"),
            },
            ReindexEvent::EndOfListing => match self.phase {
                ReindexPhase::Listing => self.serialize(),
                _ => self.abort("reply does not answer the pending request"),
            },
            ReindexEvent::Content(bytes) => match self.phase {
                ReindexPhase::Reading => self.read(bytes),
                _ => self.abort("reply does not answer the pending request"),
            },
            ReindexEvent::EndOfContent => match self.phase {
                ReindexPhase::Reading => self.finish_object(),
                _ => self.abort("reply does not answer the pending request"),
            },
            ReindexEvent::Serialized(document) => match self.phase {
                ReindexPhase::Serializing => self.proceed(
                    ReindexPhase::Publishing,
                    ReindexAction::Publish {
                        key: String::from_str(manifest_key_str()),
                        document,
                    },
                ),
                _ => self.abort("reply does not answer the pending request"),
            },
            ReindexEvent::Published => match self.phase {
                ReindexPhase::Publishing => self.proceed(
                    ReindexPhase::Done,
                    ReindexAction::Finish,
                ),
                _ => self.abort("reply does not answer the pending request"),
            },
        }
    }
}

/// A fresh rebuild is in order, and every transition keeps a rebuild in
/// order.
pub proof fn lemma_reindex_inv(state: ReindexView, event: ReindexEventView)
    requires
        reindex_inv(state),
    ensures
        reindex_inv(fresh_reindex(state.public_url, state.title)),
        reindex_inv(reindex_transition(state, event).0),
{
}

/// The store is asked to take a document only as the answer to the
/// manifest's document, which is asked for only when the store has named all
/// its objects: no listing, fetching, reading or serializing that failed is
/// followed by a write, and a rebuild that was given up asks for nothing
/// more.
pub proof fn lemma_publish_comes_last(state: ReindexView, event: ReindexEventView)
    ensures
        reindex_transition(state, event).1 is Publish ==> state.phase is Serializing
            && event is Serialized,
        reindex_transition(state, event).1 is Serialize ==> state.phase is Listing
            && event is EndOfListing,
        reindex_transition(state, event).0.phase is Serializing ==> reindex_transition(
            state,
            event,
        ).1 is Serialize,
        event is Failed ==> reindex_transition(state, event).1 is Abort,
        reindex_transition(state, event).1 is Abort <==> reindex_transition(state, event).0.phase
            is Failed,
        !in_progress(state.phase) ==> reindex_transition(state, event).1 is Abort,
{
}

/// An object of the store with its content, cut into the pieces in which the
/// store hands it out.
pub ghost struct Held {
    pub object: StoredObjectView,
    pub pieces: Seq<Seq<u8>>,
}

/// What the store replies while the rebuild deals with `held`: the object,
/// and for an archive its pieces and their end.
pub open spec fn replies_for(held: Held) -> Seq<ReindexEventView> {
    if is_archive(held.object) {
        seq![ReindexEventView::Object(held.object)] + held.pieces.map_values(
            |piece: Seq<u8>| ReindexEventView::Content(piece),
        ) + seq![ReindexEventView::EndOfContent]
    } else {
        seq![ReindexEventView::Object(held.object)]
    }
}

/// What the store replies while the rebuild walks through `store`.
pub open spec fn replies(store: Seq<Held>) -> Seq<ReindexEventView>
    decreases store.len(),
{
    if store.len() == 0 {
        Seq::empty()
    } else {
        replies(store.drop_last()) + replies_for(store.last())
    }
}

/// The state that `events`, taken one after the other, lead to from `state`.
pub open spec fn run(state: ReindexView, events: Seq<ReindexEventView>) -> ReindexView
    decreases events.len(),
{
    if events.len() == 0 {
        state
    } else {
        run(reindex_transition(state, events[0]).0, events.drop_first())
    }
}

/// The entries of the archives in `store`, in the store's order: each with
/// the digest of its whole content.
pub open spec fn index_of(store: Seq<Held>) -> Seq<ModView>
    decreases store.len(),
{
    if store.len() == 0 {
        Seq::empty()
    } else if is_archive(store.last().object) {
        index_of(store.drop_last()).push(
            entry_of(store.last().object, xxh3_64(store.last().pieces.flatten())),
        )
    } else {
        index_of(store.drop_last())
    }
}

/// The number of archives in `store`.
pub open spec fn archive_count(store: Seq<Held>) -> nat
    decreases store.len(),
{
    if store.len() == 0 {
        0
    } else if is_archive(store.last().object) {
        archive_count(store.drop_last()) + 1
    } else {
        archive_count(store.drop_last())
    }
}

/// Whether the content of every archive in `store` can be counted in a
/// `usize`.
pub open spec fn countable(store: Seq<Held>) -> bool {
    forall|i: int|
        0 <= i < store.len() && is_archive((#[trigger] store[i]).object) ==> store[i]
            .pieces.flatten().len() <= usize::MAX
}

/// Running through two runs of events is running through the first and then
/// through the second.
proof fn lemma_run_append(
    state: ReindexView,
    first: Seq<ReindexEventView>,
    second: Seq<ReindexEventView>,
)
    ensures
        run(state, first + second) == run(run(state, first), second),
    decreases first.len(),
{
    if first.len() == 0 {
        assert(first + second =~= second);
    } else {
        let all = first + second;
        assert(all[0] == first[0]);
        assert(all.drop_first() =~= first.drop_first() + second);
        lemma_run_append(reindex_transition(state, first[0]).0, first.drop_first(), second);
    }
}

/// Reading an archive piece by piece adds up to its whole content.
proof fn lemma_run_pieces(state: ReindexView, pieces: Seq<Seq<u8>>)
    requires
        state.phase is Reading,
        state.content.len() + pieces.flatten().len() <= usize::MAX,
    ensures
        run(state, pieces.map_values(|piece: Seq<u8>| ReindexEventView::Content(piece))) == (
        ReindexView { content: state.content + pieces.flatten(), ..state }),
    decreases pieces.len(),
{
    let events = pieces.map_values(|piece: Seq<u8>| ReindexEventView::Content(piece));
    if pieces.len() == 0 {
        assert(pieces.flatten() =~= Seq::<u8>::empty());
        assert(state.content + pieces.flatten() =~= state.content);
    } else {
        let rest = pieces.drop_first();
        assert(pieces.flatten() =~= pieces[0] + rest.flatten());
        let next = reindex_transition(state, events[0]).0;
        assert(events[0] == ReindexEventView::Content(pieces[0]));
        assert(next == (ReindexView { content: state.content + pieces[0], ..state }));
        assert(events.drop_first() =~= rest.map_values(
            |piece: Seq<u8>| ReindexEventView::Content(piece),
        ));
        lemma_run_pieces(next, rest);
        assert((state.content + pieces[0]) + rest.flatten() =~= state.content + pieces.flatten());
    }
}

/// A rebuild that walks through a store collects the entry of every archive
/// in it, with the digest of the archive's whole content however that was
/// cut into pieces, and leaves out what is no archive. When the store has
/// named all its objects, the manifest that is handed out is the manifest of
/// those entries: its count is the number of archives, and its entries
/// ascend by identifier.
pub proof fn lemma_rebuild_indexes_store(public_url: Seq<char>, title: Seq<char>, store: Seq<Held>)
    requires
        countable(store),
    ensures
        run(fresh_reindex(public_url, title), replies(store)) == (ReindexView {
            entries: index_of(store),
            ..fresh_reindex(public_url, title)
        }),
        reindex_transition(
            run(fresh_reindex(public_url, title), replies(store)),
            ReindexEventView::EndOfListing,
        ).1 == ReindexActionView::Serialize(manifest_of(public_url, title, index_of(store))),
        index_of(store).len() == archive_count(store),
        manifest_of(public_url, title, index_of(store)).count == archive_count(store),
        manifest_of(public_url, title, index_of(store)).well_formed(),
        distinct_idents(index_of(store)) ==> strictly_ascending(
            manifest_of(public_url, title, index_of(store)).mods,
        ),
    decreases store.len(),
{
    let start = fresh_reindex(public_url, title);
    lemma_sorted_by_ident(index_of(store));
    if distinct_idents(index_of(store)) {
        lemma_sorted_strictly(index_of(store));
    }
    if store.len() == 0 {
    } else {
        let front = store.drop_last();
        let held = store.last();
        assert(countable(front)) by {
            assert forall|i: int| 0 <= i < front.len() && is_archive(
                (#[trigger] front[i]).object,
            ) implies front[i].pieces.flatten().len() <= usize::MAX by {
                assert(front[i] == store[i]);
            }
        }
        lemma_rebuild_indexes_store(public_url, title, front);
        lemma_run_append(start, replies(front), replies_for(held));
        let before = run(start, replies(front));
        if is_archive(held.object) {
            let named = seq![ReindexEventView::Object(held.object)];
            let pieces = held.pieces.map_values(|piece: Seq<u8>| ReindexEventView::Content(piece));
            let end = seq![ReindexEventView::EndOfContent];
            lemma_run_append(before, named + pieces, end);
            lemma_run_append(before, named, pieces);
            let reading = ReindexView {
                phase: ReindexPhase::Reading,
                current: Some(held.object),
                content: Seq::empty(),
                ..before
            };
            assert(run(before, named) == reading) by {
                assert(named.drop_first() =~= Seq::<ReindexEventView>::empty());
                assert(run(reading, named.drop_first()) == reading);
            }
            assert(store[store.len() - 1] == held);
            lemma_run_pieces(reading, held.pieces);
            let read = ReindexView { content: held.pieces.flatten(), ..reading };
            assert(Seq::<u8>::empty() + held.pieces.flatten() =~= held.pieces.flatten());
            assert(run(reading, pieces) == read);
            let after = reindex_transition(read, ReindexEventView::EndOfContent).0;
            assert(run(read, end) == after) by {
                assert(end.drop_first() =~= Seq::<ReindexEventView>::empty());
                assert(run(after, end.drop_first()) == after);
            }
        } else {
            let named = replies_for(held);
            assert(run(before, named) == before) by {
                assert(named.drop_first() =~= Seq::<ReindexEventView>::empty());
                assert(run(before, named.drop_first()) == before);
            }
        }
    }
}

/// Whether every archive in `store` has a name with the archive suffix, as
/// every upload gives it, and no two archives share a name.
pub open spec fn filled_by_uploads(store: Seq<Held>) -> bool {
    &&& forall|i: int|
        0 <= i < store.len() && is_archive((#[trigger] store[i]).object) ==> has_archive_suffix(
            store[i].object.name->0,
        )
    &&& forall|i: int, j: int|
        0 <= i < j < store.len() && is_archive((#[trigger] store[i]).object) && is_archive(
            (#[trigger] store[j]).object,
        ) ==> store[i].object.name != store[j].object.name
}

/// Every entry of the index is the entry of an archive in the store.
proof fn lemma_index_entries_are_archives(store: Seq<Held>, k: int)
    requires
        0 <= k < index_of(store).len(),
    ensures
        exists|i: int|
            0 <= i < store.len() && is_archive((#[trigger] store[i]).object) && index_of(store)[k]
                == entry_of(store[i].object, xxh3_64(store[i].pieces.flatten())),
    decreases store.len(),
{
    if store.len() > 0 {
        let front = store.drop_last();
        let last = store.len() - 1;
        if is_archive(store.last().object) && k == index_of(front).len() {
            assert(is_archive(store[last].object));
        } else {
            lemma_index_entries_are_archives(front, k);
            let i = choose|i: int|
                0 <= i < front.len() && is_archive((#[trigger] front[i]).object) && index_of(
                    front,
                )[k] == entry_of(front[i].object, xxh3_64(front[i].pieces.flatten()));
            assert(front[i] == store[i]);
            assert(is_archive(store[i].object));
        }
    }
}

/// In a store that uploads have filled, no two archives share an identifier:
/// the manifest of such a store names every identifier once, and its entries
/// ascend strictly.
pub proof fn lemma_uploads_have_their_own_idents(
    public_url: Seq<char>,
    title: Seq<char>,
    store: Seq<Held>,
)
    requires
        filled_by_uploads(store),
    ensures
        distinct_idents(index_of(store)),
        strictly_ascending(manifest_of(public_url, title, index_of(store)).mods),
    decreases store.len(),
{
    if store.len() > 0 {
        let front = store.drop_last();
        let last = store.len() - 1;
        assert(filled_by_uploads(front)) by {
            assert forall|i: int|
                0 <= i < front.len() && is_archive(
                    (#[trigger] front[i]).object,
                ) implies has_archive_suffix(front[i].object.name->0) by {
                assert(front[i] == store[i]);
            }
            assert forall|i: int, j: int|
                0 <= i < j < front.len() && is_archive((#[trigger] front[i]).object) && is_archive(
                    (#[trigger] front[j]).object,
                ) implies front[i].object.name != front[j].object.name by {
                assert(front[i] == store[i] && front[j] == store[j]);
            }
        }
        lemma_uploads_have_their_own_idents(public_url, title, front);
        if is_archive(store.last().object) {
            let index = index_of(store);
            let before = index_of(front);
            assert forall|p: int, q: int| 0 <= p < q < index.len() implies index[p].ident
                != index[q].ident by {
                if q < before.len() {
                    assert(index[p] == before[p] && index[q] == before[q]);
                } else {
                    assert(index[p] == before[p]);
                    lemma_index_entries_are_archives(front, p);
                    let i = choose|i: int|
                        0 <= i < front.len() && is_archive((#[trigger] front[i]).object)
                            && before[p] == entry_of(
                            front[i].object,
                            xxh3_64(front[i].pieces.flatten()),
                        );
                    assert(front[i] == store[i]);
                    assert(is_archive(store[last].object));
                    assert(store[i].object.name != store[last].object.name);
                    lemma_suffixed_names_have_their_own_ident(
                        store[i].object.name->0,
                        store[last].object.name->0,
                    );
                }
            }
        }
    }
    lemma_sorted_strictly(index_of(store));
}

} // verus!
