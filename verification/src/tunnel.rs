//! Establishing the tunnel, step by step.
//!
//! The client connects to the proxy, sends its request in one piece and
//! flushes, so that the proxy has all of it before the client starts to read.
//! It then reads until the reply is accepted or refused. The surplus of an
//! accepted reply goes to the local output before anything else does. Only
//! then is the connection handed to the relay; after a refusal or a failure
//! it never is.
//!
//! The caller holds the connection. It performs the action that the tunnel
//! asks for and reports what came of it.

use vstd::prelude::*;
use vstd::string::*;

use crate::handshake::{Handshake, Progress};
use crate::relay::CHUNK_SIZE;
use crate::reply::{
    classify, conclude, diagnostic_of, is_line, lemma_other_status_is_refused, names_success,
    surplus_of, Reply,
};
use crate::request::{basic_token, connect_request, encodable, request_head};

verus! {

/// How far the tunnel has come. The phases are passed through in the order
/// given, up to one of the last four, where the tunnel stays.
#[derive(Clone, Copy, Debug, PartialEq, Eq, Structural)]
pub enum Phase {
    /// The connection to the proxy is to be opened.
    Connecting,
    /// The request is to be written.
    Sending,
    /// The request is written and to be flushed.
    Flushing,
    /// The reply is being read.
    Reading,
    /// The reply is accepted; its surplus is to be written to the local
    /// output.
    Delivering,
    /// The surplus is written and to be flushed.
    Settling,
    /// The tunnel is open: what the connection carries from here on is the
    /// destination's traffic.
    Open,
    /// The proxy could not be reached.
    Unreachable,
    /// The proxy refused, or its reply ended early.
    Refused,
    /// Writing or flushing failed.
    Broken,
}

/// What the caller does next.
#[derive(Clone, Copy, Debug, PartialEq, Eq, Structural)]
pub enum TunnelAction {
    /// Open a connection to the proxy.
    Connect,
    /// Write the whole request to the proxy.
    SendRequest,
    /// Flush the connection to the proxy.
    FlushRequest,
    /// Read at most `capacity` bytes from the proxy.
    ReadReply { capacity: usize },
    /// Write the whole surplus to the local output.
    DeliverSurplus,
    /// Flush the local output.
    FlushSurplus,
    /// Start the relay on the connection.
    StartRelay,
    /// Give up and report that the proxy could not be reached.
    ReportUnreachable,
    /// Give up and report the refusal with its diagnostic.
    ReportRefusal,
    /// Give up and report the failure of the last action.
    ReportFailure,
}

/// The action that `phase` asks for.
pub open spec fn action_in(phase: Phase) -> TunnelAction {
    match phase {
        Phase::Connecting => TunnelAction::Connect,
        Phase::Sending => TunnelAction::SendRequest,
        Phase::Flushing => TunnelAction::FlushRequest,
        Phase::Reading => TunnelAction::ReadReply { capacity: CHUNK_SIZE },
        Phase::Delivering => TunnelAction::DeliverSurplus,
        Phase::Settling => TunnelAction::FlushSurplus,
        Phase::Open => TunnelAction::StartRelay,
        Phase::Unreachable => TunnelAction::ReportUnreachable,
        Phase::Refused => TunnelAction::ReportRefusal,
        Phase::Broken => TunnelAction::ReportFailure,
    }
}

/// The tunnel has come to an end, good or bad.
pub open spec fn is_settled(phase: Phase) -> bool {
    phase is Open || phase is Unreachable || phase is Refused || phase is Broken
}

/// The phase after the connection was opened, or a write or a flush went
/// through. Nothing changes while the tunnel reads, or once it is settled.
pub open spec fn after_completed(phase: Phase) -> Phase {
    match phase {
        Phase::Connecting => Phase::Sending,
        Phase::Sending => Phase::Flushing,
        Phase::Flushing => Phase::Reading,
        Phase::Delivering => Phase::Settling,
        Phase::Settling => Phase::Open,
        _ => phase,
    }
}

/// The phase after the action in flight failed. A failed read counts as the
/// end of the reply. Nothing changes once the tunnel is settled.
pub open spec fn after_failed(phase: Phase) -> Phase {
    match phase {
        Phase::Connecting => Phase::Unreachable,
        Phase::Sending | Phase::Flushing | Phase::Delivering | Phase::Settling => Phase::Broken,
        Phase::Reading => Phase::Refused,
        _ => phase,
    }
}

/// The phase after a read that returned `count` bytes, with `reply` being
/// all that has been read by then. No bytes mean that the stream ended.
/// Nothing changes unless the tunnel reads.
pub open spec fn after_received(phase: Phase, reply: Seq<u8>, count: nat) -> Phase {
    if phase != Phase::Reading {
        phase
    } else if count == 0 {
        Phase::Refused
    } else {
        match classify(reply) {
            Reply::Incomplete => Phase::Reading,
            Reply::Accepted { .. } => Phase::Delivering,
            Reply::Refused { .. } => Phase::Refused,
        }
    }
}

/// What must hold of the reply read so far in each phase.
pub open spec fn agrees(phase: Phase, reply: Seq<u8>) -> bool {
    match phase {
        Phase::Connecting | Phase::Sending | Phase::Flushing | Phase::Unreachable => reply.len()
            == 0,
        Phase::Reading => classify(reply) is Incomplete,
        Phase::Delivering | Phase::Settling | Phase::Open => classify(reply) is Accepted,
        Phase::Refused => classify(reply) !is Accepted,
        Phase::Broken => true,
    }
}

/// A tunnel in the making.
#[derive(Debug)]
pub struct Tunnel {
    phase: Phase,
    proxy: String,
    request: String,
    handshake: Handshake,
}

impl Tunnel {
    /// The phase that the tunnel is in.
    pub closed spec fn phase(&self) -> Phase {
        self.phase
    }

    /// The address of the proxy.
    pub closed spec fn proxy_text(&self) -> Seq<char> {
        self.proxy@
    }

    /// The request that the tunnel sends.
    pub closed spec fn request_text(&self) -> Seq<char> {
        self.request@
    }

    /// All that has been read from the proxy.
    pub closed spec fn reply(&self) -> Seq<u8> {
        self.handshake@
    }

    /// The bookkeeping is sound.
    pub closed spec fn wf(&self) -> bool {
        &&& self.handshake.wf()
        &&& agrees(self.phase, self.handshake@)
    }

    /// In every phase the reply read so far is what the phase says of it: in
    /// particular the tunnel is open, or on its way there, only on a reply
    /// that is accepted.
    pub proof fn lemma_phase_agrees(&self)
        requires
            self.wf(),
        ensures
            agrees(self.phase(), self.reply()),
    {
    }

    /// Starts a tunnel to `destination` through the proxy at the address
    /// `proxy`, presenting `credential` if there is one.
    pub fn start(proxy: &str, destination: &str, credential: Option<&str>) -> (tunnel: Tunnel)
        requires
            credential matches Some(c) ==> encodable(c@),
        ensures
            tunnel.wf(),
            tunnel.phase() == Phase::Connecting,
            tunnel.reply() == Seq::<u8>::empty(),
            tunnel.proxy_text() == proxy@,
            tunnel.request_text() == request_head(
                destination@,
                match credential {
                    Some(c) => Some(basic_token(c@)),
                    None => None,
                },
            ),
    {
        Tunnel {
            phase: Phase::Connecting,
            proxy: String::from_str(proxy),
            request: connect_request(destination, credential),
            handshake: Handshake::new(),
        }
    }

    /// The action that the tunnel asks for.
    pub fn action(&self) -> (next: TunnelAction)
        ensures
            next == action_in(self.phase()),
    {
        match self.phase {
            Phase::Connecting => TunnelAction::Connect,
            Phase::Sending => TunnelAction::SendRequest,
            Phase::Flushing => TunnelAction::FlushRequest,
            Phase::Reading => TunnelAction::ReadReply { capacity: CHUNK_SIZE },
            Phase::Delivering => TunnelAction::DeliverSurplus,
            Phase::Settling => TunnelAction::FlushSurplus,
            Phase::Open => TunnelAction::StartRelay,
            Phase::Unreachable => TunnelAction::ReportUnreachable,
            Phase::Refused => TunnelAction::ReportRefusal,
            Phase::Broken => TunnelAction::ReportFailure,
        }
    }

    /// The address of the proxy to connect to.
    pub fn proxy(&self) -> (address: &str)
        ensures
            address@ == self.proxy_text(),
    {
        self.proxy.as_str()
    }

    /// The request to send.
    pub fn request(&self) -> (text: &str)
        ensures
            text@ == self.request_text(),
    {
        self.request.as_str()
    }

    /// Reports that the connection, write or flush asked for went through.
    pub fn completed(&mut self)
        requires
            old(self).wf(),
        ensures
            final(self).wf(),
            final(self).phase() == after_completed(old(self).phase()),
            final(self).proxy_text() == old(self).proxy_text(),
            final(self).request_text() == old(self).request_text(),
            final(self).reply() == old(self).reply(),
    {
        self.phase = match self.phase {
            Phase::Connecting => Phase::Sending,
            Phase::Sending => Phase::Flushing,
            Phase::Flushing => Phase::Reading,
            Phase::Delivering => Phase::Settling,
            Phase::Settling => Phase::Open,
            other => other,
        };
    }

    /// Reports that the action asked for failed.
    pub fn failed(&mut self)
        requires
            old(self).wf(),
        ensures
            final(self).wf(),
            final(self).phase() == after_failed(old(self).phase()),
            final(self).proxy_text() == old(self).proxy_text(),
            final(self).request_text() == old(self).request_text(),
            final(self).reply() == old(self).reply(),
    {
        self.phase = match self.phase {
            Phase::Connecting => Phase::Unreachable,
            Phase::Sending => Phase::Broken,
            Phase::Flushing => Phase::Broken,
            Phase::Delivering => Phase::Broken,
            Phase::Settling => Phase::Broken,
            Phase::Reading => Phase::Refused,
            other => other,
        };
    }

    /// Reports what the read asked for returned: the bytes read, or none if
    /// the stream ended. Outside the reading phase the bytes are not taken.
    pub fn received(&mut self, chunk: &[u8])
        requires
            old(self).wf(),
        ensures
            final(self).wf(),
            final(self).proxy_text() == old(self).proxy_text(),
            final(self).request_text() == old(self).request_text(),
            final(self).reply() == if old(self).phase() == Phase::Reading {
                old(self).reply() + chunk@
            } else {
                old(self).reply()
            },
            final(self).phase() == after_received(
                old(self).phase(),
                final(self).reply(),
                chunk@.len(),
            ),
    {
        match self.phase {
            Phase::Reading => {
                if chunk.len() == 0 {
                    self.phase = Phase::Refused;
                } else {
                    let progress = self.handshake.receive(chunk);
                    self.phase = match progress {
                        Progress::Pending => Phase::Reading,
                        Progress::Established => Phase::Delivering,
                        Progress::Rejected => Phase::Refused,
                    };
                }
            },
            _ => {},
        }
    }

    /// The bytes that were read past the head of an accepted reply: the first
    /// bytes of the tunnelled stream. None while the reply is not accepted.
    pub fn surplus(&self) -> (bytes: &[u8])
        requires
            self.wf(),
        ensures
            bytes@ == surplus_of(classify(self.reply())),
    {
        self.handshake.surplus()
    }

    /// What to show for a refusal: the status line, or what there was of the
    /// reply. Nothing if the reply is accepted.
    pub fn diagnostic(&self) -> (bytes: &[u8])
        requires
            self.wf(),
        ensures
            bytes@ == diagnostic_of(conclude(self.reply())),
    {
        self.handshake.diagnostic()
    }
}

/// A tunnel that is settled stays as it is, whatever is reported to it.
pub proof fn lemma_settled_stays(phase: Phase, reply: Seq<u8>, count: nat)
    requires
        is_settled(phase),
    ensures
        after_completed(phase) == phase,
        after_failed(phase) == phase,
        after_received(phase, reply, count) == phase,
{
}

/// The relay starts only on an accepted reply whose surplus has been written
/// and flushed: the one step that opens the tunnel is the flush of the
/// surplus going through.
pub proof fn lemma_open_only_after_surplus(phase: Phase, reply: Seq<u8>, count: nat)
    requires
        phase != Phase::Open,
    ensures
        after_failed(phase) != Phase::Open,
        after_received(phase, reply, count) != Phase::Open,
        after_completed(phase) == Phase::Open ==> phase == Phase::Settling,
{
}

/// The proxy is not read before the request is out: the one step that starts
/// the reading is the flush of the request going through.
pub proof fn lemma_reads_only_after_request(phase: Phase, reply: Seq<u8>, count: nat)
    requires
        phase != Phase::Reading,
    ensures
        after_failed(phase) != Phase::Reading,
        after_received(phase, reply, count) != Phase::Reading,
        after_completed(phase) == Phase::Reading ==> phase == Phase::Flushing,
{
}

/// A reply whose status line does not hold `200` settles a reading tunnel as
/// refused, whatever else was read with it: the surplus is never delivered
/// and the relay never starts.
pub proof fn lemma_refusal_settles(status: Seq<u8>, rest: Seq<u8>, count: nat)
    requires
        is_line(status),
        !names_success(status),
    ensures
        after_received(Phase::Reading, status + rest, count) == Phase::Refused,
        is_settled(Phase::Refused),
        surplus_of(classify(status + rest)) == Seq::<u8>::empty(),
{
    lemma_other_status_is_refused(status, rest);
}

} // verus!
