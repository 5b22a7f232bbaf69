//! The upload of one archive: the payload is read piece by piece, stored in
//! parts of a fixed size, and the manifest is rebuilt before the client is
//! told that all went well.

use vstd::prelude::*;
use vstd::string::*;

use crate::error::{RespError, RespErrorView, INTERNAL_SERVER_ERROR};
use crate::naming::{archive_key, key_of};

verus! {

/// The size of every part of an upload but the last: 10 MiB.
pub const CHUNK_SIZE: usize = 10 * 1024 * 1024;

/// What an upload waits for.
#[derive(Debug, Clone, Copy, PartialEq, Eq, Structural)]
pub enum UploadPhase {
    /// The store opens the multipart upload.
    Opening,
    /// The next piece of the payload is read.
    Reading,
    /// A full part is stored; more of the payload may follow.
    Storing,
    /// The last part is stored.
    StoringLast,
    /// The store completes the multipart upload.
    Completing,
    /// The manifest is rebuilt.
    Reindexing,
    /// The client was told that the upload succeeded.
    Done,
    /// The client was told that the upload failed.
    Failed,
}

/// What happened to what the upload asked for.
#[derive(Debug, PartialEq, Eq)]
pub enum UploadEvent {
    /// The multipart upload is open.
    Opened,
    /// A read returned these bytes; none at the end of the payload.
    Data(Vec<u8>),
    /// The part is stored.
    PartStored,
    /// The multipart upload is complete: the object is in the store.
    Completed,
    /// The manifest was rebuilt, or rebuilding it failed.
    Reindexed(Result<(), RespError>),
    /// What was asked of the store or of the payload failed.
    Failed,
}

/// What the upload asks for next.
#[derive(Debug, PartialEq, Eq)]
pub enum UploadAction {
    /// Open a multipart upload under `key`.
    Open { key: String },
    /// Read up to `at_most` bytes of the payload.
    Read { at_most: usize },
    /// Store these bytes as the next part.
    Put(Vec<u8>),
    /// Complete the multipart upload.
    Complete,
    /// Rebuild the manifest.
    Reindex,
    /// Tell the client that the upload succeeded.
    Succeed,
    /// Tell the client that the upload failed, and how.
    Fail(RespError),
}

/// An upload in progress.
pub struct UploadFlow {
    phase: UploadPhase,
    pending: Vec<u8>,
    received: Ghost<Seq<u8>>,
    stored: Ghost<Seq<Seq<u8>>>,
}

/// An [`UploadFlow`] as mathematical values.
pub ghost struct UploadView {
    pub phase: UploadPhase,
    /// The bytes that were read and belong to no part yet.
    pub pending: Seq<u8>,
    /// All bytes that were read so far.
    pub received: Seq<u8>,
    /// The parts that the store was asked to store so far.
    pub stored: Seq<Seq<u8>>,
}

/// An [`UploadEvent`] as mathematical values.
pub ghost enum UploadEventView {
    Opened,
    Data(Seq<u8>),
    PartStored,
    Completed,
    Reindexed(Result<(), RespErrorView>),
    Failed,
}

/// An [`UploadAction`] as mathematical values.
pub ghost enum UploadActionView {
    Open { key: Seq<char> },
    Read { at_most: nat },
    Put(Seq<u8>),
    Complete,
    Reindex,
    Succeed,
    Fail(RespErrorView),
}

impl View for UploadFlow {
    type V = UploadView;

    closed spec fn view(&self) -> UploadView {
        UploadView {
            phase: self.phase,
            pending: self.pending@,
            received: self.received@,
            stored: self.stored@,
        }
    }
}

impl View for UploadEvent {
    type V = UploadEventView;

    open spec fn view(&self) -> UploadEventView {
        match *self {
            UploadEvent::Opened => UploadEventView::Opened,
            UploadEvent::Data(bytes) => UploadEventView::Data(bytes@),
            UploadEvent::PartStored => UploadEventView::PartStored,
            UploadEvent::Completed => UploadEventView::Completed,
            UploadEvent::Reindexed(Ok(_)) => UploadEventView::Reindexed(Ok(())),
            UploadEvent::Reindexed(Err(e)) => UploadEventView::Reindexed(Err(e@)),
            UploadEvent::Failed => UploadEventView::Failed,
        }
    }
}

impl View for UploadAction {
    type V = UploadActionView;

    open spec fn view(&self) -> UploadActionView {
        match *self {
            UploadAction::Open { key } => UploadActionView::Open { key: key@ },
            UploadAction::Read { at_most } => UploadActionView::Read { at_most: at_most as nat },
            UploadAction::Put(part) => UploadActionView::Put(part@),
            UploadAction::Complete => UploadActionView::Complete,
            UploadAction::Reindex => UploadActionView::Reindex,
            UploadAction::Succeed => UploadActionView::Succeed,
            UploadAction::Fail(e) => UploadActionView::Fail(e@),
        }
    }
}

/// An upload that has read and stored nothing.
pub open spec fn fresh_upload() -> UploadView {
    UploadView {
        phase: UploadPhase::Opening,
        pending: Seq::empty(),
        received: Seq::empty(),
        stored: Seq::empty(),
    }
}

/// The upload `flow` after it failed, with what the client is told.
pub open spec fn failed_upload(flow: UploadView, message: Seq<char>) -> (
    UploadView,
    UploadActionView,
) {
    (
        UploadView { phase: UploadPhase::Failed, ..flow },
        UploadActionView::Fail(
            RespErrorView { status: INTERNAL_SERVER_ERROR as int, message },
        ),
    )
}

/// What the client is told when the request of `phase` failed.
pub open spec fn failure_message(phase: UploadPhase) -> Seq<char> {
    match phase {
        UploadPhase::Opening => "failed to put object to object store"@,
        UploadPhase::Reading => "failed to read from temp file"@,
        UploadPhase::Storing => "failed to upload to object store"@,
        UploadPhase::StoringLast => "failed to upload last part to object store"@,
        UploadPhase::Completing => "failed to finalize uploading to object store"@,
        _ => "reply does not answer the pending request"@,
    }
}

/// What an upload in the reading phase does with the bytes of one read.
pub open spec fn after_read(flow: UploadView, bytes: Seq<u8>) -> (UploadView, UploadActionView) {
    if flow.pending.len() >= CHUNK_SIZE || bytes.len() > CHUNK_SIZE - flow.pending.len() {
        failed_upload(flow, "reply does not answer the pending request"@)
    } else if bytes.len() == 0 {
        if flow.pending.len() > 0 {
            (
                UploadView {
                    phase: UploadPhase::StoringLast,
                    pending: Seq::empty(),
                    stored: flow.stored.push(flow.pending),
                    ..flow
                },
                UploadActionView::Put(flow.pending),
            )
        } else {
            (UploadView { phase: UploadPhase::Completing, ..flow }, UploadActionView::Complete)
        }
    } else {
        let filled = flow.pending + bytes;
        let received = flow.received + bytes;
        if filled.len() == CHUNK_SIZE {
            (
                UploadView {
                    phase: UploadPhase::Storing,
                    pending: Seq::empty(),
                    received,
                    stored: flow.stored.push(filled),
                },
                UploadActionView::Put(filled),
            )
        } else {
            (
                UploadView { pending: filled, received, ..flow },
                UploadActionView::Read { at_most: (CHUNK_SIZE - filled.len()) as nat },
            )
        }
    }
}

/// The upload's transition: from the state `flow` and the event `event` to
/// the next state and what to ask for.
pub open spec fn upload_transition(flow: UploadView, event: UploadEventView) -> (
    UploadView,
    UploadActionView,
) {
    match (flow.phase, event) {
        (UploadPhase::Opening, UploadEventView::Opened) => (
            UploadView { phase: UploadPhase::Reading, ..flow },
            UploadActionView::Read { at_most: CHUNK_SIZE as nat },
        ),
        (UploadPhase::Reading, UploadEventView::Data(bytes)) => after_read(flow, bytes),
        (UploadPhase::Storing, UploadEventView::PartStored) => (
            UploadView { phase: UploadPhase::Reading, ..flow },
            UploadActionView::Read { at_most: CHUNK_SIZE as nat },
        ),
        (UploadPhase::StoringLast, UploadEventView::PartStored) => (
            UploadView { phase: UploadPhase::Completing, ..flow },
            UploadActionView::Complete,
        ),
        (UploadPhase::Completing, UploadEventView::Completed) => (
            UploadView { phase: UploadPhase::Reindexing, ..flow },
            UploadActionView::Reindex,
        ),
        (UploadPhase::Reindexing, UploadEventView::Reindexed(Ok(_))) => (
            UploadView { phase: UploadPhase::Done, ..flow },
            UploadActionView::Succeed,
        ),
        (UploadPhase::Reindexing, UploadEventView::Reindexed(Err(e))) => failed_upload(
            flow,
            e.message,
        ),
        (phase, UploadEventView::Failed) => failed_upload(flow, failure_message(phase)),
        _ => failed_upload(flow, "reply does not answer the pending request"@),
    }
}

/// What holds of an upload at every step: the parts stored so far, followed
/// by the bytes that wait for their part, are the bytes that were read; every
/// part is full but the last one of a payload that has ended, which is not
/// empty; and fewer bytes than a part wait.
pub open spec fn upload_inv(flow: UploadView) -> bool {
    &&& flow.stored.flatten() + flow.pending == flow.received
    &&& flow.pending.len() < CHUNK_SIZE
    &&& forall|k: int| 0 <= k < flow.stored.len() - 1 ==> (#[trigger] flow.stored[k]).len() == CHUNK_SIZE
    &&& flow.stored.len() > 0 ==> 0 < flow.stored.last().len() <= CHUNK_SIZE
    &&& (flow.phase is Opening || flow.phase is Reading || flow.phase is Storing) && flow.stored.len()
        > 0 ==> flow.stored.last().len() == CHUNK_SIZE
    &&& !(flow.phase is Reading || flow.phase is Failed) ==> flow.pending.len() == 0
}

/// A fresh upload is in order, and every transition keeps an upload in
/// order and adds to what was read exactly the bytes of the read.
pub proof fn lemma_upload_inv(flow: UploadView, event: UploadEventView)
    requires
        upload_inv(flow),
    ensures
        upload_inv(fresh_upload()),
        upload_inv(upload_transition(flow, event).0),
        upload_transition(flow, event).0.received == flow.received + (if flow.phase is Reading
            && event is Data && !(upload_transition(flow, event).1 is Fail) {
            event->Data_0
        } else {
            Seq::empty()
        }),
        upload_transition(flow, event).1 matches UploadActionView::Put(part) ==> upload_transition(
            flow,
            event,
        ).0.stored == flow.stored.push(part),
        !(upload_transition(flow, event).1 is Put) ==> upload_transition(flow, event).0.stored
            == flow.stored,
{
    broadcast use Seq::lemma_flatten_push;

    assert(Seq::<Seq<u8>>::empty().flatten() =~= Seq::<u8>::empty());
    assert(Seq::<Seq<u8>>::empty().flatten() + Seq::<u8>::empty() =~= Seq::<u8>::empty());
    let next = upload_transition(flow, event).0;
    assert(flow.received + Seq::<u8>::empty() =~= flow.received);
    if flow.phase is Reading && event is Data {
        let bytes = event->Data_0;
        if flow.pending.len() >= CHUNK_SIZE || bytes.len() > CHUNK_SIZE - flow.pending.len() {
        } else if bytes.len() == 0 {
            assert(flow.received + bytes =~= flow.received);
            if flow.pending.len() > 0 {
                assert(next.stored.flatten() + next.pending =~= flow.received);
                assert(next.stored.last() == flow.pending);
                assert forall|k: int| 0 <= k < next.stored.len() - 1 implies (
                #[trigger] next.stored[k]).len() == CHUNK_SIZE by {
                    assert(next.stored[k] == flow.stored[k]);
                }
            }
        } else {
            let filled = flow.pending + bytes;
            if filled.len() == CHUNK_SIZE {
                assert(next.stored.flatten() + next.pending =~= flow.received + bytes);
                assert(next.stored.last() == filled);
                assert forall|k: int| 0 <= k < next.stored.len() - 1 implies (
                #[trigger] next.stored[k]).len() == CHUNK_SIZE by {
                    assert(next.stored[k] == flow.stored[k]);
                }
            } else {
                assert(next.stored.flatten() + next.pending =~= flow.received + bytes);
            }
        }
    }
}

/// Once an upload asks the store to complete, the parts that it had stored
/// are, one after the other, exactly the bytes that were read.
pub proof fn lemma_complete_upload_is_whole(flow: UploadView, event: UploadEventView)
    requires
        upload_inv(flow),
        upload_transition(flow, event).1 is Complete,
    ensures
        upload_transition(flow, event).0.stored.flatten() == upload_transition(
            flow,
            event,
        ).0.received,
{
    lemma_upload_inv(flow, event);
    let next = upload_transition(flow, event).0;
    assert(next.pending =~= Seq::<u8>::empty());
    assert(next.stored.flatten() + next.pending =~= next.stored.flatten());
}

fn fail(flow: UploadFlow, message: &str) -> (r: (UploadFlow, UploadAction))
    ensures
        (r.0@, r.1@) == failed_upload(flow@, message@),
{
    proof {
        use_type_invariant(&flow);
    }
    (
        UploadFlow {
            phase: UploadPhase::Failed,
            pending: flow.pending,
            received: flow.received,
            stored: flow.stored,
        },
        UploadAction::Fail(RespError::new(INTERNAL_SERVER_ERROR, message)),
    )
}

fn fail_in_phase(flow: UploadFlow) -> (r: (UploadFlow, UploadAction))
    ensures
        (r.0@, r.1@) == failed_upload(flow@, failure_message(flow@.phase)),
{
    match flow.phase {
        UploadPhase::Opening => fail(flow, "failed to put object to object store"),
        UploadPhase::Reading => fail(flow, "failed to read from temp file"),
        UploadPhase::Storing => fail(flow, "failed to upload to object store"),
        UploadPhase::StoringLast => fail(flow, "failed to upload last part to object store"),
        UploadPhase::Completing => fail(flow, "failed to finalize uploading to object store"),
        _ => fail(flow, "reply does not answer the pending request"),
    }
}

impl UploadFlow {
    #[verifier::type_invariant]
    spec fn in_order(self) -> bool {
        upload_inv(self@)
    }

    /// Starts the upload of an archive named `name`: the key under which it
    /// is stored carries the archive suffix exactly once more than the
    /// identifier does.
    pub fn begin(name: &str) -> (r: (UploadFlow, UploadAction))
        ensures
            r.0@ == fresh_upload(),
            r.1@ == (UploadActionView::Open { key: key_of(name@) }),
            upload_inv(r.0@),
    {
        proof {
            lemma_upload_inv(fresh_upload(), UploadEventView::Opened);
        }
        (
            UploadFlow {
                phase: UploadPhase::Opening,
                pending: Vec::new(),
                received: Ghost(Seq::empty()),
                stored: Ghost(Seq::empty()),
            },
            UploadAction::Open { key: archive_key(name) },
        )
    }

    /// What the upload waits for.
    pub fn phase(&self) -> (phase: UploadPhase)
        ensures
            phase == self@.phase,
    {
        self.phase
    }

    fn read(self, bytes: Vec<u8>) -> (r: (UploadFlow, UploadAction))
        requires
            self@.phase is Reading,
        ensures
            (r.0@, r.1@) == after_read(self@, bytes@),
    {
        proof {
            use_type_invariant(&self);
            lemma_upload_inv(self@, UploadEventView::Data(bytes@));
        }
        let mut bytes = bytes;
        let mut pending = self.pending;
        if pending.len() >= CHUNK_SIZE || bytes.len() > CHUNK_SIZE - pending.len() {
            fail(
                UploadFlow {
                    phase: self.phase,
                    pending,
                    received: self.received,
                    stored: self.stored,
                },
                "reply does not answer the pending request",
            )
        } else if bytes.len() == 0 {
            if pending.len() > 0 {
                let ghost stored = self.stored@.push(pending@);
                (
                    UploadFlow {
                        phase: UploadPhase::StoringLast,
                        pending: Vec::new(),
                        received: self.received,
                        stored: Ghost(stored),
                    },
                    UploadAction::Put(pending),
                )
            } else {
                (
                    UploadFlow {
                        phase: UploadPhase::Completing,
                        pending,
                        received: self.received,
                        stored: self.stored,
                    },
                    UploadAction::Complete,
                )
            }
        } else {
            let ghost received = self.received@ + bytes@;
            pending.append(&mut bytes);
            if pending.len() == CHUNK_SIZE {
                let ghost stored = self.stored@.push(pending@);
                (
                    UploadFlow {
                        phase: UploadPhase::Storing,
                        pending: Vec::new(),
                        received: Ghost(received),
                        stored: Ghost(stored),
                    },
                    UploadAction::Put(pending),
                )
            } else {
                let at_most = CHUNK_SIZE - pending.len();
                (
                    UploadFlow {
                        phase: UploadPhase::Reading,
                        pending,
                        received: Ghost(received),
                        stored: self.stored,
                    },
                    UploadAction::Read { at_most },
                )
            }
        }
    }

    fn proceed(self, phase: UploadPhase, action: UploadAction) -> (r: (UploadFlow, UploadAction))
        requires
            upload_inv(UploadView { phase, ..self@ }),
        ensures
            r.0@ == (UploadView { phase, ..self@ }),
            r.1 == action,
    {
        (
            UploadFlow {
                phase,
                pending: self.pending,
                received: self.received,
                stored: self.stored,
            },
            action,
        )
    }

    /// Takes `event` and says what to ask for next. The upload is in order
    /// before and after.
    pub fn step(self, event: UploadEvent) -> (r: (UploadFlow, UploadAction))
        ensures
            (r.0@, r.1@) == upload_transition(self@, event@),
            upload_inv(self@),
            upload_inv(r.0@),
    {
        proof {
            use_type_invariant(&self);
            lemma_upload_inv(self@, event@);
        }
        match event {
            UploadEvent::Failed => fail_in_phase(self),
            UploadEvent::Opened => match self.phase {
                UploadPhase::Opening => self.proceed(
                    UploadPhase::Reading,
                    UploadAction::Read { at_most: CHUNK_SIZE },
                ),
                _ => fail(self, "reply does not answer the pending request"),
            },
            UploadEvent::Data(bytes) => match self.phase {
                UploadPhase::Reading => self.read(bytes),
                _ => fail(self, "reply does not answer the pending request"),
            },
            UploadEvent::PartStored => match self.phase {
                UploadPhase::Storing => self.proceed(
                    UploadPhase::Reading,
                    UploadAction::Read { at_most: CHUNK_SIZE },
                ),
                UploadPhase::StoringLast => self.proceed(
                    UploadPhase::Completing,
                    UploadAction::Complete,
                ),
                _ => fail(self, "reply does not answer the pending request"),
            },
            UploadEvent::Completed => match self.phase {
                UploadPhase::Completing => self.proceed(
                    UploadPhase::Reindexing,
                    UploadAction::Reindex,
                ),
                _ => fail(self, "reply does not answer the pending request"),
            },
            UploadEvent::Reindexed(outcome) => match self.phase {
                UploadPhase::Reindexing => match outcome {
                    Ok(_) => self.proceed(UploadPhase::Done, UploadAction::Succeed),
                    Err(e) => fail(self, e.message.as_str()),
                },
                _ => fail(self, "reply does not answer the pending request"),
            },
        }
    }
}

} // verus!
