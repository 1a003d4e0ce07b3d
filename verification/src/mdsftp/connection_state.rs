//! The bookkeeping of one MDSFTP connection: its open channels, whether it
//! still reads packets, and where each packet it reads goes.
use std::collections::HashMap;
use rand::rngs::StdRng;
use rand::{Rng, SeedableRng};
use vstd::prelude::*;
use vstd::std_specs::iter::IteratorSpec;
use crate::error::{MDSFTPError, MDSFTPResult};
use crate::mdsftp::channel_state::{ChannelState, PacketOutcome, RequestKind};
use crate::mdsftp::message::ChannelMessage;

verus! {

broadcast use vstd::std_specs::hash::group_hash_axioms;

#[verifier::external_type_specification]
#[verifier::external_body]
pub struct ExStdRng(StdRng);

/// Calls `rand::SeedableRng::from_entropy` for `rand::rngs::StdRng`: a
/// generator seeded from the operating system. Nothing is claimed of it (the
/// call panics when the system provides no randomness).
#[verifier::external_body]
fn entropy_rng() -> StdRng {
    StdRng::from_entropy()
}

/// Calls `rand::Rng::gen_range` with the range `low..high`: claims only that
/// the number drawn lies in the range, which must not be empty.
#[verifier::external_body]
fn draw_in_range(rng: &mut StdRng, low: u32, high: u32) -> (r: u32)
    requires
        low < high,
    ensures
        low <= r < high,
{
    rng.gen_range(low..high)
}

/// The most channels a connection holds.
pub const MAX_CHANNELS: usize = 1000000;

/// How many random identifiers a new channel tries before giving up.
pub const MAX_ID_TRIES: usize = 5;

/// The offset of the identifiers of channels that the remote end opened
/// (0 for the side that opened the connection).
pub open spec fn id_offset(local: bool) -> int {
    if local {
        0
    } else {
        0x80000000
    }
}

/// The channel identifier that a draw in `1..0x80000000` gives.
pub open spec fn id_of_draw(local: bool, draw: u32) -> u32 {
    (draw + id_offset(local)) as u32
}

/// Whether an identifier is one that the given side of a connection hands
/// out: `1..0x80000000` for the side that opened the connection, the same
/// shifted by `0x80000000` for the other.
pub open spec fn id_in_range(local: bool, id: u32) -> bool {
    id_offset(local) + 1 <= id < id_offset(local) + 0x80000000
}

/// The channel count after one more channel: one more, or zero past the
/// end of the range.
pub open spec fn count_up(n: usize) -> usize {
    if n == usize::MAX {
        0
    } else {
        (n + 1) as usize
    }
}

/// The channel count after one channel less: one less, or the end of the
/// range below zero.
pub open spec fn count_down(n: usize) -> usize {
    if n == 0 {
        usize::MAX
    } else {
        (n - 1) as usize
    }
}

/// Whether every draw lies in `1..0x80000000`.
pub open spec fn draws_in_range(draws: Seq<u32>) -> bool {
    forall|i: int| 0 <= i < draws.len() ==> 1 <= #[trigger] draws[i] < 0x80000000
}

/// Whether `r` is what the draws give the given side of a connection with
/// the given open channels: the identifier of the first of the first
/// `MAX_ID_TRIES` draws whose identifier is free, or `MaxChannels` when each
/// of them collides with an open channel.
pub open spec fn id_choice(
    channels: Map<u32, ChannelState>,
    local: bool,
    draws: Seq<u32>,
    r: MDSFTPResult<u32>,
) -> bool {
    match r {
        Ok(id) => exists|i: int|
            {
                &&& 0 <= i < draws.len()
                &&& i < MAX_ID_TRIES
                &&& id == id_of_draw(local, #[trigger] draws[i])
                &&& !channels.contains_key(id)
                &&& forall|j: int|
                    0 <= j < i ==> channels.contains_key(id_of_draw(local, #[trigger] draws[j]))
            },
        Err(e) => e == MDSFTPError::MaxChannels && forall|j: int|
            0 <= j < draws.len() && j < MAX_ID_TRIES ==> channels.contains_key(
                id_of_draw(local, #[trigger] draws[j]),
            ),
    }
}

/// An identifier chosen from draws in range is free and in the side's
/// range, and a refusal is `MaxChannels`.
proof fn lemma_choice_in_range(
    channels: Map<u32, ChannelState>,
    local: bool,
    draws: Seq<u32>,
    r: MDSFTPResult<u32>,
)
    requires
        draws_in_range(draws),
        id_choice(channels, local, draws, r),
    ensures
        match r {
            Ok(id) => !channels.contains_key(id) && id_in_range(local, id),
            Err(e) => e == MDSFTPError::MaxChannels,
        },
{
    if let Ok(id) = r {
        let i = choose|i: int|
            {
                &&& 0 <= i < draws.len()
                &&& i < MAX_ID_TRIES
                &&& id == id_of_draw(local, #[trigger] draws[i])
                &&& !channels.contains_key(id)
                &&& forall|j: int|
                    0 <= j < i ==> channels.contains_key(id_of_draw(local, #[trigger] draws[j]))
            };
        assert(1 <= draws[i] < 0x80000000);
    }
}

/// Where a packet read on a connection goes.
#[derive(Debug, PartialEq, Eq)]
pub enum Route {
    /// The remote end opened a channel; `registered` tells whether it was
    /// new (a channel already open under that identifier is kept).
    Opened { stream_id: u32, registered: bool },
    /// The remote end closed an open channel, which was in the given state.
    Closed { stream_id: u32, state: ChannelState },
    /// The remote end closed a channel that is not open.
    CloseUnknown { stream_id: u32 },
    /// The remote end reported an error on a channel.
    ChannelError { stream_id: u32 },
    /// A packet for an open channel, and what becomes of it there.
    Channel { stream_id: u32, outcome: PacketOutcome },
    /// A packet for a channel that is not open; it is dropped.
    UnknownChannel { stream_id: u32 },
}

/// What the reader of a connection does after a channel has handled a
/// packet.
#[derive(Debug, Clone, Copy, PartialEq, Eq, Structural)]
pub enum ReaderStep {
    /// Read the next packet.
    Continue,
    /// Report the channel's error, then read the next packet.
    LogAndContinue,
    /// The connection is poisoned: interrupt every channel and stop reading.
    Close,
}

/// The reader's step after a channel handled a packet with `result`: a
/// `ConnectionError` closes the connection, any other error is reported,
/// and success reads on.
pub open spec fn reader_step_of(result: MDSFTPResult<()>) -> ReaderStep {
    match result {
        Ok(_) => ReaderStep::Continue,
        Err(MDSFTPError::ConnectionError) => ReaderStep::Close,
        Err(_) => ReaderStep::LogAndContinue,
    }
}

/// Decides the reader's step after a channel handled a packet with
/// `result`.
pub fn reader_step(result: &MDSFTPResult<()>) -> (r: ReaderStep)
    ensures
        r == reader_step_of(*result),
{
    match result {
        Ok(_) => ReaderStep::Continue,
        Err(MDSFTPError::ConnectionError) => ReaderStep::Close,
        Err(_) => ReaderStep::LogAndContinue,
    }
}

/// The reader closes the connection exactly when a channel fails with a
/// `ConnectionError`; it reads on after success, and reads on after
/// reporting any other error.
pub proof fn lemma_reader_closes_only_on_connection_errors(result: MDSFTPResult<()>)
    ensures
        (reader_step_of(result) == ReaderStep::Close) <==> result == Err::<(), MDSFTPError>(
            MDSFTPError::ConnectionError,
        ),
        (reader_step_of(result) == ReaderStep::Continue) <==> result is Ok,
        (reader_step_of(result) == ReaderStep::LogAndContinue) <==> (result is Err && result
            != Err::<(), MDSFTPError>(MDSFTPError::ConnectionError)),
{
}

/// The state of one connection.
pub struct ConnectionState {
    channels: HashMap<u32, ChannelState>,
    running: bool,
    closing: bool,
    local: bool,
    count: usize,
}

impl ConnectionState {
    /// Each open channel is filed under its own identifier.
    pub closed spec fn wf(&self) -> bool {
        forall|k: u32| #[trigger] self.channels@.contains_key(k) ==> self.channels@[k].id == k
    }

    /// The open channels, by identifier.
    pub closed spec fn channels(&self) -> Map<u32, ChannelState> {
        self.channels@
    }

    /// The connection still reads packets.
    pub closed spec fn is_running(&self) -> bool {
        self.running
    }

    /// The connection is being closed.
    pub closed spec fn is_closing(&self) -> bool {
        self.closing
    }

    /// This side opened the connection.
    pub closed spec fn is_local(&self) -> bool {
        self.local
    }

    /// The channel count: one more for each channel opened (by either end),
    /// one less for each channel this end closes, none less for a channel
    /// the remote end closes, and zero once the connection stops reading.
    pub closed spec fn count(&self) -> usize {
        self.count
    }

    /// A connection that has just started reading: no channel open yet.
    pub fn new(local: bool) -> (r: Self)
        ensures
            r.wf(),
            r.channels() == Map::<u32, ChannelState>::empty(),
            r.is_running(),
            !r.is_closing(),
            r.is_local() == local,
            r.count() == 0,
    {
        ConnectionState { channels: HashMap::new(), running: true, closing: false, local, count: 0 }
    }

    /// Whether the connection still reads packets.
    pub fn running(&self) -> (r: bool)
        ensures
            r == self.is_running(),
    {
        self.running
    }

    /// Whether the connection is being closed.
    pub fn closing(&self) -> (r: bool)
        ensures
            r == self.is_closing(),
    {
        self.closing
    }

    /// Whether this side opened the connection.
    pub fn local(&self) -> (r: bool)
        ensures
            r == self.is_local(),
    {
        self.local
    }

    /// The channel count (see `count`): channels closed by the remote end
    /// stay counted.
    pub fn channel_count(&self) -> (r: usize)
        requires
            self.wf(),
        ensures
            r == self.count(),
    {
        self.count
    }

    /// Whether the connection can be closed: its channel count is zero.
    pub fn safe_to_close(&self) -> (r: bool)
        requires
            self.wf(),
        ensures
            r == (self.count() == 0),
    {
        self.count == 0
    }

    /// The state of an open channel.
    pub fn channel(&self, id: u32) -> (r: Option<ChannelState>)
        requires
            self.wf(),
        ensures
            r == (if self.channels().contains_key(id) {
                Some(self.channels()[id])
            } else {
                None
            }),
            r matches Some(s) ==> s.id == id,
    {
        match self.channels.get(&id) {
            Some(s) => Some(*s),
            None => None,
        }
    }

    /// Opens a channel under `id`, unless one is open under it already.
    /// Returns whether the channel was opened.
    pub fn add_channel(&mut self, id: u32) -> (r: bool)
        requires
            old(self).wf(),
        ensures
            final(self).wf(),
            r == !old(self).channels().contains_key(id),
            r ==> final(self).channels() == old(self).channels().insert(id, ChannelState::fresh(id)),
            r ==> final(self).channels().len() == old(self).channels().len() + 1,
            !r ==> final(self).channels() == old(self).channels(),
            final(self).is_running() == old(self).is_running(),
            final(self).is_closing() == old(self).is_closing(),
            final(self).is_local() == old(self).is_local(),
            final(self).count() == (if r {
                count_up(old(self).count())
            } else {
                old(self).count()
            }),
    {
        if self.channels.contains_key(&id) {
            false
        } else {
            self.channels.insert(id, ChannelState::new(id));
            self.count = if self.count == usize::MAX {
                0
            } else {
                self.count + 1
            };
            true
        }
    }

    /// Forgets the channel open under `id`, returning its last state.
    pub fn remove_channel(&mut self, id: u32) -> (r: Option<ChannelState>)
        requires
            old(self).wf(),
        ensures
            final(self).wf(),
            r == (if old(self).channels().contains_key(id) {
                Some(old(self).channels()[id])
            } else {
                None
            }),
            final(self).channels() == old(self).channels().remove(id),
            final(self).channels().len() == old(self).channels().len() - (if r is Some {
                1int
            } else {
                0int
            }),
            final(self).is_running() == old(self).is_running(),
            final(self).is_closing() == old(self).is_closing(),
            final(self).is_local() == old(self).is_local(),
            final(self).count() == (if r is Some {
                count_down(old(self).count())
            } else {
                old(self).count()
            }),
    {
        let r = self.channels.remove(&id);
        if r.is_some() {
            self.count = if self.count == 0 {
                usize::MAX
            } else {
                self.count - 1
            };
        }
        r
    }

    /// Picks the identifier of a new channel from up to `MAX_ID_TRIES`
    /// draws: the first whose identifier is free. Refused when the
    /// connection holds `MAX_CHANNELS` channels or every try collides.
    pub fn choose_channel_id(&self, draws: &[u32]) -> (r: MDSFTPResult<u32>)
        requires
            self.wf(),
            draws_in_range(draws@),
        ensures
            self.channels().len() >= MAX_CHANNELS ==> r == Err::<u32, MDSFTPError>(
                MDSFTPError::MaxChannels,
            ),
            self.channels().len() < MAX_CHANNELS ==> id_choice(
                self.channels(),
                self.is_local(),
                draws@,
                r,
            ),
    {
        if self.channels.len() >= MAX_CHANNELS {
            return Err(MDSFTPError::MaxChannels);
        }
        let offset: u32 = if self.local { 0 } else { 0x80000000 };
        let mut i: usize = 0;
        while i < draws.len() && i < MAX_ID_TRIES
            invariant
                i <= draws@.len(),
                offset == id_offset(self.is_local()),
                draws_in_range(draws@),
                forall|j: int|
                    0 <= j < i ==> self.channels().contains_key(
                        id_of_draw(self.is_local(), #[trigger] draws@[j]),
                    ),
                self.channels().len() < MAX_CHANNELS,
            decreases draws@.len() - i,
        {
            let id = draws[i] + offset;
            if !self.channels.contains_key(&id) {
                assert(id == id_of_draw(self.is_local(), draws@[i as int]));
                return Ok(id);
            }
            i = i + 1;
        }
        Err(MDSFTPError::MaxChannels)
    }

    /// Draws the identifier of a new channel at random: `MAX_ID_TRIES`
    /// draws in `1..0x80000000`, of which the first whose identifier is free
    /// wins. Refused when the connection holds `MAX_CHANNELS` channels, or
    /// when every draw collides with an open channel.
    pub fn generate_id(&self) -> (r: MDSFTPResult<u32>)
        requires
            self.wf(),
        ensures
            self.channels().len() >= MAX_CHANNELS ==> r == Err::<u32, MDSFTPError>(
                MDSFTPError::MaxChannels,
            ),
            self.channels().len() < MAX_CHANNELS ==> exists|d: Seq<u32>|
                {
                    &&& d.len() == MAX_ID_TRIES
                    &&& draws_in_range(d)
                    &&& #[trigger] id_choice(self.channels(), self.is_local(), d, r)
                },
            match r {
                Ok(id) => !self.channels().contains_key(id) && id_in_range(self.is_local(), id),
                Err(e) => e == MDSFTPError::MaxChannels,
            },
    {
        if self.channels.len() >= MAX_CHANNELS {
            return Err(MDSFTPError::MaxChannels);
        }
        let mut rng = entropy_rng();
        let mut draws: Vec<u32> = Vec::new();
        while draws.len() < MAX_ID_TRIES
            invariant
                draws@.len() <= MAX_ID_TRIES,
                draws_in_range(draws@),
            decreases MAX_ID_TRIES - draws@.len(),
        {
            let draw = draw_in_range(&mut rng, 1, 0x80000000);
            draws.push(draw);
        }
        let r = self.choose_channel_id(draws.as_slice());
        proof {
            lemma_choice_in_range(self.channels(), self.is_local(), draws@, r);
        }
        r
    }

    /// Opens a new channel of this side: refused with `ConnectionError` once
    /// the connection stopped reading, with `Interrupted` while it closes,
    /// and with `MaxChannels` when no identifier can be had (the connection
    /// is full, or every draw collides).
    pub fn create_channel(&mut self) -> (r: MDSFTPResult<u32>)
        requires
            old(self).wf(),
        ensures
            final(self).wf(),
            !old(self).is_running() ==> r == Err::<u32, MDSFTPError>(MDSFTPError::ConnectionError),
            old(self).is_running() && old(self).is_closing() ==> r == Err::<u32, MDSFTPError>(
                MDSFTPError::Interrupted,
            ),
            old(self).is_running() && !old(self).is_closing() && old(self).channels().len() >= MAX_CHANNELS
                ==> r == Err::<u32, MDSFTPError>(MDSFTPError::MaxChannels),
            old(self).is_running() && !old(self).is_closing() && old(self).channels().len() < MAX_CHANNELS
                ==> exists|d: Seq<u32>|
                {
                    &&& d.len() == MAX_ID_TRIES
                    &&& draws_in_range(d)
                    &&& #[trigger] id_choice(old(self).channels(), old(self).is_local(), d, r)
                },
            r matches Err(e) ==> {
                &&& (e == MDSFTPError::ConnectionError) <==> !old(self).is_running()
                &&& (e == MDSFTPError::Interrupted) <==> (old(self).is_running()
                    && old(self).is_closing())
                &&& (e == MDSFTPError::MaxChannels) <==> (old(self).is_running()
                    && !old(self).is_closing())
            },
            match r {
                Ok(id) => {
                    &&& !old(self).channels().contains_key(id)
                    &&& id_in_range(old(self).is_local(), id)
                    &&& final(self).channels() == old(self).channels().insert(
                        id,
                        ChannelState::fresh(id),
                    )
                    &&& final(self).channels().len() == old(self).channels().len() + 1
                },
                Err(_) => final(self).channels() == old(self).channels(),
            },
            final(self).is_running() == old(self).is_running(),
            final(self).is_closing() == old(self).is_closing(),
            final(self).is_local() == old(self).is_local(),
            final(self).count() == (if r is Ok {
                count_up(old(self).count())
            } else {
                old(self).count()
            }),
    {
        if !self.running {
            return Err(MDSFTPError::ConnectionError);
        }
        if self.closing {
            return Err(MDSFTPError::Interrupted);
        }
        let id = match self.generate_id() {
            Ok(id) => id,
            Err(e) => {
                return Err(e);
            },
        };
        self.add_channel(id);
        Ok(id)
    }

    /// Decides where a packet read on the connection goes, and updates the
    /// channels: a remote open registers a channel (and counts it), a remote
    /// close forgets it (the channel count stays as it was), and a packet
    /// for an open channel updates that channel's state.
    pub fn route(&mut self, stream_id: u32, m: &ChannelMessage) -> (r: Route)
        requires
            old(self).wf(),
        ensures
            final(self).wf(),
            final(self).is_running() == old(self).is_running(),
            final(self).is_closing() == old(self).is_closing(),
            final(self).is_local() == old(self).is_local(),
            match *m {
                ChannelMessage::ChannelOpen => {
                    &&& final(self).count() == if old(self).channels().contains_key(stream_id) {
                        old(self).count()
                    } else {
                        count_up(old(self).count())
                    }
                    &&& final(self).channels().len() == old(self).channels().len() + if old(
                        self,
                    ).channels().contains_key(stream_id) {
                        0int
                    } else {
                        1int
                    }
                },
                ChannelMessage::ChannelClose => {
                    &&& final(self).count() == old(self).count()
                    &&& final(self).channels().len() == old(self).channels().len() - if old(
                        self,
                    ).channels().contains_key(stream_id) {
                        1int
                    } else {
                        0int
                    }
                },
                _ => {
                    &&& final(self).count() == old(self).count()
                    &&& final(self).channels().len() == old(self).channels().len()
                },
            },
            match *m {
                ChannelMessage::ChannelOpen => {
                    &&& r == Route::Opened {
                        stream_id,
                        registered: !old(self).channels().contains_key(stream_id),
                    }
                    &&& final(self).channels() == if old(self).channels().contains_key(stream_id) {
                        old(self).channels()
                    } else {
                        old(self).channels().insert(stream_id, ChannelState::fresh(stream_id))
                    }
                },
                ChannelMessage::ChannelClose => {
                    &&& r == if old(self).channels().contains_key(stream_id) {
                        Route::Closed { stream_id, state: old(self).channels()[stream_id] }
                    } else {
                        Route::CloseUnknown { stream_id }
                    }
                    &&& final(self).channels() == old(self).channels().remove(stream_id)
                },
                ChannelMessage::ChannelErr => {
                    &&& r == Route::ChannelError { stream_id }
                    &&& final(self).channels() == old(self).channels()
                },
                _ => if old(self).channels().contains_key(stream_id) {
                    let s = old(self).channels()[stream_id];
                    &&& r == Route::Channel { stream_id, outcome: s.outcome(*m) }
                    &&& final(self).channels() == old(self).channels().insert(stream_id, s.after(*m))
                } else {
                    &&& r == Route::UnknownChannel { stream_id }
                    &&& final(self).channels() == old(self).channels()
                },
            },
    {
        match m {
            ChannelMessage::ChannelOpen => {
                let registered = self.add_channel(stream_id);
                Route::Opened { stream_id, registered }
            },
            ChannelMessage::ChannelClose => {
                match self.channels.remove(&stream_id) {
                    Some(state) => Route::Closed { stream_id, state },
                    None => Route::CloseUnknown { stream_id },
                }
            },
            ChannelMessage::ChannelErr => Route::ChannelError { stream_id },
            _ => {
                match self.channels.get(&stream_id) {
                    Some(s) => {
                        let mut state: ChannelState = *s;
                        let outcome = state.handle_message(m);
                        self.channels.insert(stream_id, state);
                        Route::Channel { stream_id, outcome }
                    },
                    None => Route::UnknownChannel { stream_id },
                }
            },
        }
    }

    /// Records, on the open channel `id`, that a request of kind `k` was
    /// sent and awaits its answer. Returns false, changing nothing, when no
    /// channel is open under `id`.
    pub fn begin_request(&mut self, id: u32, k: RequestKind) -> (r: bool)
        requires
            old(self).wf(),
        ensures
            final(self).wf(),
            r == old(self).channels().contains_key(id),
            r ==> final(self).channels() == old(self).channels().insert(
                id,
                old(self).channels()[id].with_wait(k, true),
            ),
            !r ==> final(self).channels() == old(self).channels(),
            final(self).is_running() == old(self).is_running(),
            final(self).is_closing() == old(self).is_closing(),
            final(self).is_local() == old(self).is_local(),
            final(self).count() == old(self).count(),
    {
        match self.channels.get(&id) {
            Some(s) => {
                let mut state: ChannelState = *s;
                state.begin_request(k);
                self.channels.insert(id, state);
                true
            },
            None => false,
        }
    }

    /// Records, on the open channel `id`, that a handler takes its incoming
    /// packets and that its end is awaited. Returns false, changing nothing,
    /// when no channel is open under `id`.
    pub fn set_incoming_handler(&mut self, id: u32) -> (r: bool)
        requires
            old(self).wf(),
        ensures
            final(self).wf(),
            r == old(self).channels().contains_key(id),
            r ==> final(self).channels() == old(self).channels().insert(
                id,
                ChannelState {
                    handler_awaited: true,
                    handler_registered: true,
                    ..old(self).channels()[id]
                },
            ),
            !r ==> final(self).channels() == old(self).channels(),
            final(self).is_running() == old(self).is_running(),
            final(self).is_closing() == old(self).is_closing(),
            final(self).is_local() == old(self).is_local(),
            final(self).count() == old(self).count(),
    {
        match self.channels.get(&id) {
            Some(s) => {
                let mut state: ChannelState = *s;
                state.set_incoming_handler();
                self.channels.insert(id, state);
                true
            },
            None => false,
        }
    }

    /// Ends the awaited handler work of the open channel `id`: whether
    /// someone awaited it, or nothing when no channel is open under `id`.
    pub fn mark_handler_closed(&mut self, id: u32) -> (r: Option<bool>)
        requires
            old(self).wf(),
        ensures
            final(self).wf(),
            r == (if old(self).channels().contains_key(id) {
                Some(old(self).channels()[id].handler_awaited)
            } else {
                None
            }),
            r is Some ==> final(self).channels() == old(self).channels().insert(
                id,
                ChannelState { handler_awaited: false, ..old(self).channels()[id] },
            ),
            r is None ==> final(self).channels() == old(self).channels(),
            final(self).is_running() == old(self).is_running(),
            final(self).is_closing() == old(self).is_closing(),
            final(self).is_local() == old(self).is_local(),
            final(self).count() == old(self).count(),
    {
        match self.channels.get(&id) {
            Some(s) => {
                let mut state: ChannelState = *s;
                let awaited = state.mark_handler_closed();
                self.channels.insert(id, state);
                Some(awaited)
            },
            None => None,
        }
    }

    /// Stops reading and forgets every channel (each must then be
    /// interrupted), resetting the channel count; returns the states the
    /// channels were in.
    pub fn close_channels(&mut self) -> (r: Vec<ChannelState>)
        requires
            old(self).wf(),
        ensures
            final(self).wf(),
            r@.to_set() == old(self).channels().values(),
            r@.len() == old(self).channels().len(),
            final(self).channels() == Map::<u32, ChannelState>::empty(),
            !final(self).is_running(),
            final(self).is_closing() == old(self).is_closing(),
            final(self).is_local() == old(self).is_local(),
            final(self).count() == 0,
    {
        let mut out: Vec<ChannelState> = Vec::new();
        for s in iter: self.channels.values()
            invariant
                iter.seq() == vstd::std_specs::hash::spec_values_iter(&self.channels).remaining(),
                out@ == iter.seq().take(iter.index() as int).unref(),
        {
            assert(iter.seq().take(iter.index() + 1).unref() =~= iter.seq().take(
                iter.index() as int,
            ).unref().push(*s));
            out.push(*s);
        }
        assert(out@ =~= vstd::std_specs::hash::spec_values_iter(&self.channels).remaining().unref());
        self.channels.clear();
        self.running = false;
        self.count = 0;
        out
    }

    /// Marks the connection as closing: it opens no more channels.
    pub fn mark_closing(&mut self)
        requires
            old(self).wf(),
        ensures
            final(self).wf(),
            final(self).channels() == old(self).channels(),
            final(self).is_closing(),
            final(self).is_running() == old(self).is_running(),
            final(self).is_local() == old(self).is_local(),
            final(self).count() == old(self).count(),
    {
        self.closing = true;
    }
}

/// The two sides of a connection never hand out the same channel
/// identifier, so channels that either side opens never collide.
pub proof fn lemma_sides_never_share_ids(a: u32, b: u32)
    requires
        id_in_range(true, a),
        id_in_range(false, b),
    ensures
        a != b,
{
}

/// Opening a channel under a free identifier and closing it again leaves
/// the open channels as they were.
pub proof fn lemma_open_then_close_restores(channels: Map<u32, ChannelState>, id: u32)
    requires
        !channels.contains_key(id),
    ensures
        channels.insert(id, ChannelState::fresh(id)).remove(id) == channels,
{
    assert(channels.insert(id, ChannelState::fresh(id)).remove(id) =~= channels);
}

} // verus!
