//! The relay: one copy loop for each direction of the stream.
//!
//! A direction reads a piece of at most [`CHUNK_SIZE`] bytes, writes all of it
//! at once and flushes, so that nothing waits in a buffer, and then reads
//! again. A read of no bytes closes the direction in good order; a failed
//! read, write or flush ends it as failed. Either way it does not start again.
//!
//! The loop itself is the caller's: it performs the action that it is handed
//! and reports back the event. The decisions are made here.

use vstd::prelude::*;

verus! {

/// The size of the buffer that a direction reads into.
pub const CHUNK_SIZE: usize = 8192;

/// Where one direction of the relay stands.
#[derive(Clone, Copy, Debug, PartialEq, Eq, Structural)]
pub enum CopyState {
    /// Waiting for the next piece to be read.
    Reading,
    /// Waiting for the piece that was read to be written.
    Writing,
    /// Waiting for the piece that was written to be flushed.
    Flushing,
    /// The source ended: the direction is done.
    Closed,
    /// A read, write or flush failed: the direction is done.
    Failed,
}

/// What the caller does next for a direction.
#[derive(Clone, Copy, Debug, PartialEq, Eq)]
pub enum CopyAction<'a> {
    /// Read at most `capacity` bytes from the source.
    Read { capacity: usize },
    /// Write `piece` to the sink, all of it.
    Write { piece: &'a [u8] },
    /// Flush the sink.
    Flush,
    /// Nothing more: leave the loop.
    Stop,
}

/// What came of the action that the caller performed.
#[derive(Clone, Copy, Debug, PartialEq, Eq)]
pub enum CopyEvent<'a> {
    /// The read returned `piece`; an empty piece means that the source ended.
    Read { piece: &'a [u8] },
    /// The write went through.
    Written,
    /// The flush went through.
    Flushed,
    /// The action failed.
    Failed,
}

/// The direction is done, closed or failed.
pub open spec fn is_terminal(state: CopyState) -> bool {
    state is Closed || state is Failed
}

/// The state that follows `state` on `event`.
///
/// A direction that is done stays as it is. One that runs goes on as the
/// event says if the event answers the action in flight, and fails
/// otherwise: so it does on a read that claims more bytes than were asked
/// for, and on an event out of turn.
pub open spec fn next_state(state: CopyState, event: CopyEvent) -> CopyState {
    match state {
        CopyState::Reading => match event {
            CopyEvent::Read { piece } => {
                if piece@.len() == 0 {
                    CopyState::Closed
                } else if piece@.len() <= CHUNK_SIZE {
                    CopyState::Writing
                } else {
                    CopyState::Failed
                }
            },
            _ => CopyState::Failed,
        },
        CopyState::Writing => match event {
            CopyEvent::Written => CopyState::Flushing,
            _ => CopyState::Failed,
        },
        CopyState::Flushing => match event {
            CopyEvent::Flushed => CopyState::Reading,
            _ => CopyState::Failed,
        },
        CopyState::Closed => CopyState::Closed,
        CopyState::Failed => CopyState::Failed,
    }
}

/// The action that follows `state` on `event`: what the next state asks for.
/// The piece to write is the piece that was just read, as it is.
pub open spec fn next_action<'a>(state: CopyState, event: CopyEvent<'a>) -> CopyAction<'a> {
    match next_state(state, event) {
        CopyState::Reading => CopyAction::Read { capacity: CHUNK_SIZE },
        CopyState::Writing => match event {
            CopyEvent::Read { piece } => CopyAction::Write { piece },
            _ => CopyAction::Stop,
        },
        CopyState::Flushing => CopyAction::Flush,
        CopyState::Closed | CopyState::Failed => CopyAction::Stop,
    }
}

/// The state in which a direction starts, and its first action.
pub fn start() -> (first: (CopyState, CopyAction<'static>))
    ensures
        first.0 == CopyState::Reading,
        first.1 == (CopyAction::Read { capacity: CHUNK_SIZE }),
{
    (CopyState::Reading, CopyAction::Read { capacity: CHUNK_SIZE })
}

/// Takes a direction from `state` over `event` to its next state and action.
pub fn advance<'a>(state: CopyState, event: CopyEvent<'a>) -> (next: (CopyState, CopyAction<'a>))
    ensures
        next.0 == next_state(state, event),
        next.1 == next_action(state, event),
{
    match state {
        CopyState::Reading => match event {
            CopyEvent::Read { piece } => {
                if piece.len() == 0 {
                    (CopyState::Closed, CopyAction::Stop)
                } else if piece.len() <= CHUNK_SIZE {
                    (CopyState::Writing, CopyAction::Write { piece })
                } else {
                    (CopyState::Failed, CopyAction::Stop)
                }
            },
            _ => (CopyState::Failed, CopyAction::Stop),
        },
        CopyState::Writing => match event {
            CopyEvent::Written => (CopyState::Flushing, CopyAction::Flush),
            _ => (CopyState::Failed, CopyAction::Stop),
        },
        CopyState::Flushing => match event {
            CopyEvent::Flushed => (CopyState::Reading, CopyAction::Read { capacity: CHUNK_SIZE }),
            _ => (CopyState::Failed, CopyAction::Stop),
        },
        CopyState::Closed => (CopyState::Closed, CopyAction::Stop),
        CopyState::Failed => (CopyState::Failed, CopyAction::Stop),
    }
}

/// Whether a direction is done.
pub fn is_done(state: CopyState) -> (done: bool)
    ensures
        done == is_terminal(state),
{
    match state {
        CopyState::Closed => true,
        CopyState::Failed => true,
        _ => false,
    }
}

/// Where the relay as a whole stands.
#[derive(Clone, Copy, Debug, PartialEq, Eq, Structural)]
pub enum RelayState {
    /// Both directions are running.
    BothOpen,
    /// One direction is done, the other still runs.
    OneClosed,
    /// Both directions are done: so is the relay.
    BothClosed,
}

/// The state of the relay whose directions stand at `inbound` and `outbound`.
pub open spec fn relay_state_of(inbound: CopyState, outbound: CopyState) -> RelayState {
    if is_terminal(inbound) && is_terminal(outbound) {
        RelayState::BothClosed
    } else if is_terminal(inbound) || is_terminal(outbound) {
        RelayState::OneClosed
    } else {
        RelayState::BothOpen
    }
}

/// The state of the relay whose directions stand at `inbound` and `outbound`.
/// The relay is over only when both are done: a direction that has ended does
/// not end the other.
pub fn relay_state(inbound: CopyState, outbound: CopyState) -> (state: RelayState)
    ensures
        state == relay_state_of(inbound, outbound),
        state == RelayState::BothClosed <==> is_terminal(inbound) && is_terminal(outbound),
{
    let first = is_done(inbound);
    let second = is_done(outbound);
    if first && second {
        RelayState::BothClosed
    } else if first || second {
        RelayState::OneClosed
    } else {
        RelayState::BothOpen
    }
}

/// The bytes of `pieces`, one piece after the other.
pub open spec fn joined(pieces: Seq<&[u8]>) -> Seq<u8>
    decreases pieces.len(),
{
    if pieces.len() == 0 {
        Seq::<u8>::empty()
    } else {
        pieces.first()@ + joined(pieces.drop_first())
    }
}

/// Pieces as reads return them: none empty, none larger than the buffer.
pub open spec fn pieces_fit(pieces: Seq<&[u8]>) -> bool {
    forall|i: int| 0 <= i < pieces.len() ==> 0 < (#[trigger] pieces[i])@.len() <= CHUNK_SIZE
}

/// The bytes written by a direction that waits for a read, while the source
/// delivers `pieces`, one for each read, and every write and flush goes
/// through. After the last piece the source has no more to give for now.
pub open spec fn forwarded(pieces: Seq<&[u8]>) -> Seq<u8>
    decreases pieces.len(),
{
    if pieces.len() == 0 {
        Seq::<u8>::empty()
    } else {
        let read = CopyEvent::Read { piece: pieces.first() };
        match next_action(CopyState::Reading, read) {
            CopyAction::Write { piece } => {
                let writing = next_state(CopyState::Reading, read);
                let flushing = next_state(writing, CopyEvent::Written);
                if next_state(flushing, CopyEvent::Flushed) == CopyState::Reading {
                    piece@ + forwarded(pieces.drop_first())
                } else {
                    piece@
                }
            },
            _ => Seq::<u8>::empty(),
        }
    }
}

/// The relay changes nothing: whatever pieces the source delivers, the bytes
/// written are those pieces one after the other, each byte once and in the
/// order in which it was read. This holds of a stream of any length, cut into
/// any number of pieces.
pub proof fn lemma_relay_preserves_bytes(pieces: Seq<&[u8]>)
    requires
        pieces_fit(pieces),
    ensures
        forwarded(pieces) == joined(pieces),
    decreases pieces.len(),
{
    if pieces.len() > 0 {
        let rest = pieces.drop_first();
        lemma_relay_preserves_bytes(rest);
    }
}

/// Nothing waits in a buffer: a piece that was written is flushed before the
/// next is read. The only step that leads to a read is a flush that went
/// through, and the only step that leads to a flush is a write that did.
pub proof fn lemma_flush_follows_write(state: CopyState, event: CopyEvent)
    ensures
        next_state(state, event) == CopyState::Reading ==> state == CopyState::Flushing && event
            == CopyEvent::Flushed,
        next_state(state, event) == CopyState::Flushing ==> state == CopyState::Writing && event
            == CopyEvent::Written,
        next_state(state, event) == CopyState::Writing ==> state == CopyState::Reading
            && next_action(state, event) == (CopyAction::Write { piece: event->piece }),
{
}

/// A read of no bytes closes the direction, and nothing that the source
/// might still deliver is written.
pub proof fn lemma_end_of_stream_closes(end: &[u8], pieces: Seq<&[u8]>)
    requires
        end@.len() == 0,
    ensures
        next_state(CopyState::Reading, CopyEvent::Read { piece: end }) == CopyState::Closed,
        next_action(CopyState::Reading, CopyEvent::Read { piece: end }) == CopyAction::Stop,
        forwarded(seq![end] + pieces) == Seq::<u8>::empty(),
{
}

/// A direction that is done stays done and asks for nothing more.
pub proof fn lemma_done_stays_done(state: CopyState, event: CopyEvent)
    requires
        is_terminal(state),
    ensures
        next_state(state, event) == state,
        next_action(state, event) == CopyAction::Stop,
{
}

/// A failure ends a running direction whatever it was doing.
pub proof fn lemma_failure_ends_direction(state: CopyState)
    ensures
        is_terminal(next_state(state, CopyEvent::Failed)),
        !is_terminal(state) ==> next_state(state, CopyEvent::Failed) == CopyState::Failed,
{
}

} // verus!
