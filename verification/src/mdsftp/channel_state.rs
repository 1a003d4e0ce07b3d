//! The bookkeeping of one MDSFTP channel: which requests await an answer,
//! whether a handler takes the channel's incoming packets, and what becomes
//! of each packet that arrives.
use vstd::prelude::*;
use crate::error::{MDSFTPError, MDSFTPResult};
use crate::mdsftp::data::{
    chunk_error_as_error, ChunkErrorKind, LockAcquireResult, LockKind, PutResult, QueryResult,
    ReserveResult,
};
use crate::mdsftp::message::ChannelMessage;

verus! {

/// The requests a channel sends and then awaits an answer to.
#[derive(Debug, Clone, Copy, PartialEq, Eq, Structural)]
pub enum RequestKind {
    Lock,
    Reserve,
    Put,
    Query,
}

/// The answer handed to an awaited request.
#[derive(Debug, PartialEq, Eq)]
pub enum ChannelReply {
    Lock(MDSFTPResult<LockAcquireResult>),
    Reserve(MDSFTPResult<ReserveResult>),
    Put(MDSFTPResult<PutResult>),
    Query(MDSFTPResult<QueryResult>),
}

/// What becomes of a packet that arrives on a channel.
#[derive(Debug, PartialEq, Eq)]
pub enum PacketOutcome {
    /// An answer, handed to the request that awaits it.
    Reply(ChannelReply),
    /// An answer that no request awaits; it is dropped.
    Unawaited,
    /// A packet for the channel's handler.
    ToHandler(ChannelMessage),
    /// A packet that the channel's handler takes no part in; it is dropped.
    Ignored,
    /// A packet for a handler while none is registered; it is dropped.
    NoHandler,
}

/// The state of one channel.
#[derive(Debug, Clone, Copy, PartialEq, Eq, Structural)]
pub struct ChannelState {
    pub id: u32,
    pub awaiting_lock: bool,
    pub awaiting_reserve: bool,
    pub awaiting_put: bool,
    pub awaiting_query: bool,
    /// Someone awaits the end of the handler's work on the channel.
    pub handler_awaited: bool,
    /// A handler takes the channel's incoming packets.
    pub handler_registered: bool,
}

/// The request that a message answers, if it answers one.
pub open spec fn answers(m: ChannelMessage) -> Option<RequestKind> {
    match m {
        ChannelMessage::ReserveOk { .. } => Some(RequestKind::Reserve),
        ChannelMessage::ReserveErr { .. } => Some(RequestKind::Reserve),
        ChannelMessage::LockAcquire { .. } => Some(RequestKind::Lock),
        ChannelMessage::LockErr { .. } => Some(RequestKind::Lock),
        ChannelMessage::PutOk { .. } => Some(RequestKind::Put),
        ChannelMessage::PutErr { .. } => Some(RequestKind::Put),
        ChannelMessage::QueryResponse { .. } => Some(RequestKind::Query),
        _ => None,
    }
}

/// The answer that a response message gives its request.
pub open spec fn reply_of(m: ChannelMessage) -> ChannelReply
    recommends
        answers(m) is Some,
{
    match m {
        ChannelMessage::ReserveOk { chunk_id, chunk_buffer } => ChannelReply::Reserve(
            Ok(ReserveResult { chunk_id, chunk_buffer }),
        ),
        ChannelMessage::ReserveErr { available_space } => ChannelReply::Reserve(
            Err(MDSFTPError::ReserveError(available_space)),
        ),
        ChannelMessage::LockAcquire { kind, chunk_id } => ChannelReply::Lock(
            Ok(LockAcquireResult { kind, chunk_id }),
        ),
        ChannelMessage::LockErr { error_kind, .. } => ChannelReply::Lock(
            Err(chunk_error_as_error(error_kind)),
        ),
        ChannelMessage::PutOk { chunk_buffer } => ChannelReply::Put(Ok(PutResult { chunk_buffer })),
        ChannelMessage::PutErr { error_kind } => ChannelReply::Put(
            Err(chunk_error_as_error(error_kind)),
        ),
        ChannelMessage::QueryResponse { exists, size } => ChannelReply::Query(
            if exists {
                Ok(QueryResult { size })
            } else {
                Err(MDSFTPError::NoSuchChunkId)
            },
        ),
        _ => ChannelReply::Query(Err(MDSFTPError::RemoteError)),
    }
}

/// Whether a message is one that a channel's handler is handed.
pub open spec fn for_handler(m: ChannelMessage) -> bool {
    match m {
        ChannelMessage::FileChunk { .. } => true,
        ChannelMessage::Retrieve { .. } => true,
        ChannelMessage::Put { .. } => true,
        ChannelMessage::Reserve { .. } => true,
        ChannelMessage::ReserveCancel { .. } => true,
        ChannelMessage::LockReq { .. } => true,
        ChannelMessage::RecvAck { .. } => true,
        ChannelMessage::DeleteChunk { .. } => true,
        ChannelMessage::Commit { .. } => true,
        ChannelMessage::Query { .. } => true,
        _ => false,
    }
}

impl ChannelState {
    /// Whether a request of the given kind awaits its answer.
    pub open spec fn awaits(self, k: RequestKind) -> bool {
        match k {
            RequestKind::Lock => self.awaiting_lock,
            RequestKind::Reserve => self.awaiting_reserve,
            RequestKind::Put => self.awaiting_put,
            RequestKind::Query => self.awaiting_query,
        }
    }

    /// The state with the wait of the given kind set to `v`.
    pub open spec fn with_wait(self, k: RequestKind, v: bool) -> ChannelState {
        match k {
            RequestKind::Lock => ChannelState { awaiting_lock: v, ..self },
            RequestKind::Reserve => ChannelState { awaiting_reserve: v, ..self },
            RequestKind::Put => ChannelState { awaiting_put: v, ..self },
            RequestKind::Query => ChannelState { awaiting_query: v, ..self },
        }
    }

    /// What becomes of a message that arrives in this state.
    pub open spec fn outcome(self, m: ChannelMessage) -> PacketOutcome {
        match answers(m) {
            Some(k) => if self.awaits(k) {
                PacketOutcome::Reply(reply_of(m))
            } else {
                PacketOutcome::Unawaited
            },
            None => if !self.handler_registered {
                PacketOutcome::NoHandler
            } else if for_handler(m) {
                PacketOutcome::ToHandler(m)
            } else {
                PacketOutcome::Ignored
            },
        }
    }

    /// The state after a message arrives: an answer ends the wait of its
    /// kind, whether or not one was awaited; nothing else changes.
    pub open spec fn after(self, m: ChannelMessage) -> ChannelState {
        match answers(m) {
            Some(k) => self.with_wait(k, false),
            None => self,
        }
    }

    /// The state of a channel that has just opened: nothing awaited, no
    /// handler.
    pub open spec fn fresh(id: u32) -> ChannelState {
        ChannelState {
            id,
            awaiting_lock: false,
            awaiting_reserve: false,
            awaiting_put: false,
            awaiting_query: false,
            handler_awaited: false,
            handler_registered: false,
        }
    }

    /// A fresh channel: nothing awaited, no handler.
    pub fn new(id: u32) -> (r: Self)
        ensures
            r == ChannelState::fresh(id),
    {
        ChannelState {
            id,
            awaiting_lock: false,
            awaiting_reserve: false,
            awaiting_put: false,
            awaiting_query: false,
            handler_awaited: false,
            handler_registered: false,
        }
    }

    /// Records that a request of the given kind was sent and awaits its answer.
    pub fn begin_request(&mut self, k: RequestKind)
        ensures
            *final(self) == old(self).with_wait(k, true),
    {
        match k {
            RequestKind::Lock => self.awaiting_lock = true,
            RequestKind::Reserve => self.awaiting_reserve = true,
            RequestKind::Put => self.awaiting_put = true,
            RequestKind::Query => self.awaiting_query = true,
        }
    }

    /// Registers a handler for incoming packets, whose end is awaited.
    pub fn set_incoming_handler(&mut self)
        ensures
            *final(self) == (ChannelState {
                handler_awaited: true,
                handler_registered: true,
                ..*old(self)
            }),
    {
        self.handler_awaited = true;
        self.handler_registered = true;
    }

    /// Records that the end of a transfer is awaited, before its handler
    /// starts.
    pub fn await_handler(&mut self)
        ensures
            *final(self) == (ChannelState { handler_awaited: true, ..*old(self) }),
    {
        self.handler_awaited = true;
    }

    /// Records that the transfer's handler now takes incoming packets.
    pub fn register_handler(&mut self)
        ensures
            *final(self) == (ChannelState { handler_registered: true, ..*old(self) }),
    {
        self.handler_registered = true;
    }

    /// Decides what becomes of a message that arrives on the channel.
    pub fn handle_message(&mut self, m: &ChannelMessage) -> (r: PacketOutcome)
        ensures
            r == old(self).outcome(*m),
            *final(self) == old(self).after(*m),
    {
        match m {
            ChannelMessage::ReserveOk { chunk_id, chunk_buffer } => {
                let r = if self.awaiting_reserve {
                    PacketOutcome::Reply(
                        ChannelReply::Reserve(
                            Ok(ReserveResult { chunk_id: *chunk_id, chunk_buffer: *chunk_buffer }),
                        ),
                    )
                } else {
                    PacketOutcome::Unawaited
                };
                self.awaiting_reserve = false;
                r
            },
            ChannelMessage::ReserveErr { available_space } => {
                let r = if self.awaiting_reserve {
                    PacketOutcome::Reply(
                        ChannelReply::Reserve(Err(MDSFTPError::ReserveError(*available_space))),
                    )
                } else {
                    PacketOutcome::Unawaited
                };
                self.awaiting_reserve = false;
                r
            },
            ChannelMessage::LockAcquire { kind, chunk_id } => {
                let r = if self.awaiting_lock {
                    PacketOutcome::Reply(
                        ChannelReply::Lock(Ok(LockAcquireResult { kind: *kind, chunk_id: *chunk_id })),
                    )
                } else {
                    PacketOutcome::Unawaited
                };
                self.awaiting_lock = false;
                r
            },
            ChannelMessage::LockErr { error_kind, .. } => {
                let r = if self.awaiting_lock {
                    PacketOutcome::Reply(ChannelReply::Lock(Err(MDSFTPError::from(*error_kind))))
                } else {
                    PacketOutcome::Unawaited
                };
                self.awaiting_lock = false;
                r
            },
            ChannelMessage::PutOk { chunk_buffer } => {
                let r = if self.awaiting_put {
                    PacketOutcome::Reply(
                        ChannelReply::Put(Ok(PutResult { chunk_buffer: *chunk_buffer })),
                    )
                } else {
                    PacketOutcome::Unawaited
                };
                self.awaiting_put = false;
                r
            },
            ChannelMessage::PutErr { error_kind } => {
                let r = if self.awaiting_put {
                    PacketOutcome::Reply(ChannelReply::Put(Err(MDSFTPError::from(*error_kind))))
                } else {
                    PacketOutcome::Unawaited
                };
                self.awaiting_put = false;
                r
            },
            ChannelMessage::QueryResponse { exists, size } => {
                let r = if self.awaiting_query {
                    if *exists {
                        PacketOutcome::Reply(ChannelReply::Query(Ok(QueryResult { size: *size })))
                    } else {
                        PacketOutcome::Reply(ChannelReply::Query(Err(MDSFTPError::NoSuchChunkId)))
                    }
                } else {
                    PacketOutcome::Unawaited
                };
                self.awaiting_query = false;
                r
            },
            _ => {
                if !self.handler_registered {
                    PacketOutcome::NoHandler
                } else {
                    match m {
                        ChannelMessage::FileChunk { .. } | ChannelMessage::Retrieve { .. }
                        | ChannelMessage::Put { .. } | ChannelMessage::Reserve { .. }
                        | ChannelMessage::ReserveCancel { .. } | ChannelMessage::LockReq { .. }
                        | ChannelMessage::RecvAck { .. } | ChannelMessage::DeleteChunk { .. }
                        | ChannelMessage::Commit { .. } | ChannelMessage::Query {
                            ..
                        } => PacketOutcome::ToHandler(*m),
                        _ => PacketOutcome::Ignored,
                    }
                }
            },
        }
    }

    /// The answers that an interruption hands out: an `Interrupted` error
    /// to every awaited request, in the order lock, reserve, put, query.
    /// The waits themselves stay as they are.
    pub open spec fn interrupt_replies(self) -> Seq<ChannelReply> {
        (if self.awaiting_lock {
            seq![ChannelReply::Lock(Err(MDSFTPError::Interrupted))]
        } else {
            Seq::empty()
        }) + (if self.awaiting_reserve {
            seq![ChannelReply::Reserve(Err(MDSFTPError::Interrupted))]
        } else {
            Seq::empty()
        }) + (if self.awaiting_put {
            seq![ChannelReply::Put(Err(MDSFTPError::Interrupted))]
        } else {
            Seq::empty()
        }) + (if self.awaiting_query {
            seq![ChannelReply::Query(Err(MDSFTPError::Interrupted))]
        } else {
            Seq::empty()
        })
    }

    /// Interrupts the channel: the `Interrupted` answers for every awaited
    /// request, and whether the awaited handler is to be told (its end is
    /// then reported as a success and the handler is interrupted).
    pub fn interrupt(&self) -> (r: (Vec<ChannelReply>, bool))
        ensures
            r.0@ == self.interrupt_replies(),
            r.1 == self.handler_awaited,
    {
        let mut out: Vec<ChannelReply> = Vec::new();
        if self.awaiting_lock {
            out.push(ChannelReply::Lock(Err(MDSFTPError::Interrupted)));
        }
        if self.awaiting_reserve {
            out.push(ChannelReply::Reserve(Err(MDSFTPError::Interrupted)));
        }
        if self.awaiting_put {
            out.push(ChannelReply::Put(Err(MDSFTPError::Interrupted)));
        }
        if self.awaiting_query {
            out.push(ChannelReply::Query(Err(MDSFTPError::Interrupted)));
        }
        assert(out@ =~= self.interrupt_replies());
        (out, self.handler_awaited)
    }

    /// Ends the awaited handler work: true when someone awaited it (and is
    /// now handed the result), false when nobody did.
    pub fn mark_handler_closed(&mut self) -> (r: bool)
        ensures
            r == old(self).handler_awaited,
            *final(self) == (ChannelState { handler_awaited: false, ..*old(self) }),
    {
        let r = self.handler_awaited;
        self.handler_awaited = false;
        r
    }
}

/// An answer reaches its request exactly when the request awaits it; the
/// wait then ends, and every other wait, and the handler, stay as they were.
pub proof fn lemma_answer_ends_only_its_wait(s: ChannelState, m: ChannelMessage, k: RequestKind)
    requires
        answers(m) == Some(k),
    ensures
        s.outcome(m) is Reply <==> s.awaits(k),
        s.awaits(k) ==> s.outcome(m) == PacketOutcome::Reply(reply_of(m)),
        !s.after(m).awaits(k),
        forall|j: RequestKind| j != k ==> s.after(m).awaits(j) == s.awaits(j),
        s.after(m).handler_registered == s.handler_registered,
        s.after(m).handler_awaited == s.handler_awaited,
        s.after(m).id == s.id,
{
}

/// A request that was sent and then answered receives exactly the answer
/// that the response carries.
pub proof fn lemma_request_then_answer(s: ChannelState, m: ChannelMessage, k: RequestKind)
    requires
        answers(m) == Some(k),
    ensures
        s.with_wait(k, true).outcome(m) == PacketOutcome::Reply(reply_of(m)),
        !s.with_wait(k, true).after(m).awaits(k),
{
}

/// A message that answers no request never changes the channel's state.
pub proof fn lemma_other_messages_keep_state(s: ChannelState, m: ChannelMessage)
    requires
        answers(m) is None,
    ensures
        s.after(m) == s,
        s.outcome(m) !is Reply,
        s.outcome(m) !is Unawaited,
{
}

/// With a handler registered, every request packet (a chunk, a retrieval,
/// a put, a reservation or its cancellation, a lock request, a receive
/// acknowledgement, a deletion, a commit or a query) goes to the handler as
/// it is, and leaves the channel's state alone; without a handler it is
/// dropped as `NoHandler`. The connection-level packets never reach a
/// handler.
pub proof fn lemma_requests_reach_the_handler(s: ChannelState, m: ChannelMessage)
    ensures
        (m is FileChunk || m is Retrieve || m is Put || m is Reserve || m is ReserveCancel
            || m is LockReq || m is RecvAck || m is DeleteChunk || m is Commit || m is Query)
            ==> s.outcome(m) == (if s.handler_registered {
            PacketOutcome::ToHandler(m)
        } else {
            PacketOutcome::NoHandler
        }) && s.after(m) == s,
        (m is ChannelOpen || m is ChannelClose || m is ChannelErr) ==> s.outcome(m) == (
        if s.handler_registered {
            PacketOutcome::Ignored
        } else {
            PacketOutcome::NoHandler
        }) && s.after(m) == s,
{
}

/// Each answer reaches the request that awaits it with what it says: a
/// reservation gets its chunk and buffer or the space left, a lock its kind
/// and chunk or the error of its error kind (`NotFound` is `NoSuchChunkId`,
/// `NotAvailable` a `RemoteError`), a put its buffer or the error of its
/// error kind, a query the size of an existing chunk or `NoSuchChunkId`. An
/// answer that nothing awaits is `Unawaited`. Either way the wait ends.
pub proof fn lemma_answers_reach_their_requests(
    s: ChannelState,
    chunk_id: u128,
    chunk_buffer: u16,
    amount: u64,
    kind: LockKind,
)
    ensures
        s.outcome(ChannelMessage::ReserveOk { chunk_id, chunk_buffer }) == (if s.awaiting_reserve {
            PacketOutcome::Reply(
                ChannelReply::Reserve(Ok(ReserveResult { chunk_id, chunk_buffer })),
            )
        } else {
            PacketOutcome::Unawaited
        }),
        s.outcome(ChannelMessage::ReserveErr { available_space: amount }) == (
        if s.awaiting_reserve {
            PacketOutcome::Reply(ChannelReply::Reserve(Err(MDSFTPError::ReserveError(amount))))
        } else {
            PacketOutcome::Unawaited
        }),
        s.outcome(ChannelMessage::LockAcquire { kind, chunk_id }) == (if s.awaiting_lock {
            PacketOutcome::Reply(ChannelReply::Lock(Ok(LockAcquireResult { kind, chunk_id })))
        } else {
            PacketOutcome::Unawaited
        }),
        s.outcome(
            ChannelMessage::LockErr { kind, error_kind: ChunkErrorKind::NotFound, chunk_id },
        ) == (if s.awaiting_lock {
            PacketOutcome::Reply(ChannelReply::Lock(Err(MDSFTPError::NoSuchChunkId)))
        } else {
            PacketOutcome::Unawaited
        }),
        s.outcome(
            ChannelMessage::LockErr { kind, error_kind: ChunkErrorKind::NotAvailable, chunk_id },
        ) == (if s.awaiting_lock {
            PacketOutcome::Reply(ChannelReply::Lock(Err(MDSFTPError::RemoteError)))
        } else {
            PacketOutcome::Unawaited
        }),
        s.outcome(ChannelMessage::PutOk { chunk_buffer }) == (if s.awaiting_put {
            PacketOutcome::Reply(ChannelReply::Put(Ok(PutResult { chunk_buffer })))
        } else {
            PacketOutcome::Unawaited
        }),
        s.outcome(ChannelMessage::PutErr { error_kind: ChunkErrorKind::NotFound }) == (
        if s.awaiting_put {
            PacketOutcome::Reply(ChannelReply::Put(Err(MDSFTPError::NoSuchChunkId)))
        } else {
            PacketOutcome::Unawaited
        }),
        s.outcome(ChannelMessage::PutErr { error_kind: ChunkErrorKind::NotAvailable }) == (
        if s.awaiting_put {
            PacketOutcome::Reply(ChannelReply::Put(Err(MDSFTPError::RemoteError)))
        } else {
            PacketOutcome::Unawaited
        }),
        s.outcome(ChannelMessage::QueryResponse { exists: true, size: amount }) == (
        if s.awaiting_query {
            PacketOutcome::Reply(ChannelReply::Query(Ok(QueryResult { size: amount })))
        } else {
            PacketOutcome::Unawaited
        }),
        s.outcome(ChannelMessage::QueryResponse { exists: false, size: amount }) == (
        if s.awaiting_query {
            PacketOutcome::Reply(ChannelReply::Query(Err(MDSFTPError::NoSuchChunkId)))
        } else {
            PacketOutcome::Unawaited
        }),
        !s.after(ChannelMessage::ReserveOk { chunk_id, chunk_buffer }).awaiting_reserve,
        !s.after(ChannelMessage::ReserveErr { available_space: amount }).awaiting_reserve,
        !s.after(ChannelMessage::LockAcquire { kind, chunk_id }).awaiting_lock,
        !s.after(
            ChannelMessage::LockErr { kind, error_kind: ChunkErrorKind::NotFound, chunk_id },
        ).awaiting_lock,
        !s.after(ChannelMessage::PutOk { chunk_buffer }).awaiting_put,
        !s.after(ChannelMessage::PutErr { error_kind: ChunkErrorKind::NotFound }).awaiting_put,
        !s.after(ChannelMessage::QueryResponse { exists: true, size: amount }).awaiting_query,
{
}

/// An interruption answers every awaited request, and only those, with an
/// `Interrupted` error of its own kind: one answer per awaited request, in
/// the order lock, reserve, put, query.
pub proof fn lemma_interrupt_answers_every_wait(s: ChannelState)
    ensures
        s.interrupt_replies().len() == (if s.awaiting_lock {
            1int
        } else {
            0int
        }) + (if s.awaiting_reserve {
            1int
        } else {
            0int
        }) + (if s.awaiting_put {
            1int
        } else {
            0int
        }) + (if s.awaiting_query {
            1int
        } else {
            0int
        }),
        s.interrupt_replies().contains(ChannelReply::Lock(Err(MDSFTPError::Interrupted)))
            <==> s.awaiting_lock,
        s.interrupt_replies().contains(ChannelReply::Reserve(Err(MDSFTPError::Interrupted)))
            <==> s.awaiting_reserve,
        s.interrupt_replies().contains(ChannelReply::Put(Err(MDSFTPError::Interrupted)))
            <==> s.awaiting_put,
        s.interrupt_replies().contains(ChannelReply::Query(Err(MDSFTPError::Interrupted)))
            <==> s.awaiting_query,
        forall|i: int|
            0 <= i < s.interrupt_replies().len() ==> {
                let r = #[trigger] s.interrupt_replies()[i];
                ||| r == ChannelReply::Lock(Err(MDSFTPError::Interrupted))
                ||| r == ChannelReply::Reserve(Err(MDSFTPError::Interrupted))
                ||| r == ChannelReply::Put(Err(MDSFTPError::Interrupted))
                ||| r == ChannelReply::Query(Err(MDSFTPError::Interrupted))
            },
{
    let lock = ChannelReply::Lock(Err(MDSFTPError::Interrupted));
    let reserve = ChannelReply::Reserve(Err(MDSFTPError::Interrupted));
    let put = ChannelReply::Put(Err(MDSFTPError::Interrupted));
    let query = ChannelReply::Query(Err(MDSFTPError::Interrupted));
    let a: Seq<ChannelReply> = if s.awaiting_lock { seq![lock] } else { Seq::empty() };
    let b: Seq<ChannelReply> = if s.awaiting_reserve { seq![reserve] } else { Seq::empty() };
    let c: Seq<ChannelReply> = if s.awaiting_put { seq![put] } else { Seq::empty() };
    let d: Seq<ChannelReply> = if s.awaiting_query { seq![query] } else { Seq::empty() };
    let r = s.interrupt_replies();
    assert(r == a + b + c + d);
    assert forall|i: int| 0 <= i < r.len() implies {
        ||| r[i] == lock
        ||| r[i] == reserve
        ||| r[i] == put
        ||| r[i] == query
    } by {
        if i < a.len() {
            assert(r[i] == a[i]);
        } else if i < a.len() + b.len() {
            assert(r[i] == b[i - a.len()]);
        } else if i < a.len() + b.len() + c.len() {
            assert(r[i] == c[i - a.len() - b.len()]);
        } else {
            assert(r[i] == d[i - a.len() - b.len() - c.len()]);
        }
    }
    let kinds = seq![lock, reserve, put, query];
    assert forall|k: int| 0 <= k < 4 implies (r.contains(#[trigger] kinds[k]) <==> (if k == 0 {
        s.awaiting_lock
    } else if k == 1 {
        s.awaiting_reserve
    } else if k == 2 {
        s.awaiting_put
    } else {
        s.awaiting_query
    })) by {
        let x = kinds[k];
        let sa = a.len() as int;
        let sb = sa + b.len();
        let sc = sb + c.len();
        if r.contains(x) {
            let i = choose|i: int| 0 <= i < r.len() && r[i] == x;
            if i < sa {
                assert(r[i] == a[i]);
            } else if i < sb {
                assert(r[i] == b[i - sa]);
            } else if i < sc {
                assert(r[i] == c[i - sb]);
            } else {
                assert(r[i] == d[i - sc]);
            }
        }
        if k == 0 && s.awaiting_lock {
            assert(r[0] == lock);
        }
        if k == 1 && s.awaiting_reserve {
            assert(r[sa] == reserve);
        }
        if k == 2 && s.awaiting_put {
            assert(r[sb] == put);
        }
        if k == 3 && s.awaiting_query {
            assert(r[sc] == query);
        }
    }
    assert(kinds[0] == lock && kinds[1] == reserve && kinds[2] == put && kinds[3] == query);
}

} // verus!
