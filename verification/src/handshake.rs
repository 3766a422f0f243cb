//! Reading the proxy's reply as it arrives.
//!
//! A [`Handshake`] takes the bytes that the proxy sends in whatever pieces
//! the connection delivers them, and says after each piece whether the reply
//! is accepted, refused or still incomplete. It keeps every byte: what was
//! read past the head is handed out as the surplus, not dropped.

use vstd::prelude::*;
use vstd::slice::*;
use vstd::string::*;
use vstd::utf8::*;

use crate::reply::{
    classify, conclude, diagnostic_of, head_end, header_lines, is_blank_line, lemma_head_end_bound,
    lemma_head_end_skips, lemma_head_end_stable, lemma_header_lines_grow,
    lemma_header_lines_stable, lemma_line_end, lemma_line_end_at, lemma_line_end_stable, line_end,
    names_success, success_at, surplus_of, Reply, CARRIAGE_RETURN, DIGIT_TWO, DIGIT_ZERO,
    LINE_FEED,
};

verus! {

/// How far a handshake has come.
#[derive(Clone, Copy, Debug, PartialEq, Eq, Structural)]
pub enum Progress {
    /// More bytes are needed.
    Pending,
    /// The tunnel is open.
    Established,
    /// The proxy refused.
    Rejected,
}

/// What `reply` means for the progress of the handshake.
pub open spec fn progress_of(reply: Reply) -> Progress {
    match reply {
        Reply::Incomplete => Progress::Pending,
        Reply::Accepted { .. } => Progress::Established,
        Reply::Refused { .. } => Progress::Rejected,
    }
}

/// How a handshake ended.
#[derive(Debug, PartialEq, Eq)]
pub enum Verdict {
    /// The tunnel is open. `surplus` holds the bytes that arrived after the
    /// head: they are the first bytes of the tunnelled stream.
    Established { surplus: Vec<u8> },
    /// The proxy did not open the tunnel. `diagnostic` holds its status line,
    /// or what there was of the reply.
    Rejected { diagnostic: Vec<u8> },
}

impl View for Verdict {
    type V = Reply;

    open spec fn view(&self) -> Reply {
        match self {
            Verdict::Established { surplus } => Reply::Accepted { surplus: surplus@ },
            Verdict::Rejected { diagnostic } => Reply::Refused { diagnostic: diagnostic@ },
        }
    }
}

/// Whether the token `200` stands in the first `end` bytes.
fn mentions_success(bytes: &Vec<u8>, end: usize) -> (found: bool)
    requires
        end <= bytes@.len(),
    ensures
        found == names_success(bytes@.subrange(0, end as int)),
{
    let ghost line = bytes@.subrange(0, end as int);
    let mut at: usize = 0;
    while at < end && end - at >= 3
        invariant
            end <= bytes@.len(),
            line == bytes@.subrange(0, end as int),
            forall|k: int| 0 <= k < at ==> !success_at(line, k),
        decreases end - at,
    {
        if bytes[at] == DIGIT_TWO && bytes[at + 1] == DIGIT_ZERO && bytes[at + 2] == DIGIT_ZERO {
            assert(success_at(line, at as int));
            return true;
        }
        at += 1;
    }
    false
}

/// Which part of the reply is being read.
#[derive(Clone, Copy, Debug, PartialEq, Eq, Structural)]
enum Stage {
    StatusLine,
    Headers,
    Established,
    Rejected,
}

/// The client's side of the handshake, fed with the bytes that the proxy sends
/// in whatever pieces they arrive.
///
/// Every byte is kept, so nothing that was read past the head is lost.
#[derive(Debug)]
pub struct Handshake {
    received: Vec<u8>,
    stage: Stage,
    /// End of the status line, once it is complete.
    status_end: usize,
    /// While headers are read: where the unfinished line starts. Once
    /// established: where the surplus starts.
    mark: usize,
}

impl View for Handshake {
    type V = Seq<u8>;

    /// Every byte received so far, in order.
    closed spec fn view(&self) -> Seq<u8> {
        self.received@
    }
}

impl Handshake {
    /// What is known once the first `upto` bytes have been looked at.
    spec fn scanned(&self, upto: int) -> bool {
        let bytes = self.received@;
        match self.stage {
            Stage::StatusLine => {
                &&& 0 <= upto <= bytes.len()
                &&& forall|k: int| 0 <= k < upto ==> bytes[k] != LINE_FEED
            },
            Stage::Headers => {
                &&& line_end(bytes, 0) == Some(self.status_end as int)
                &&& names_success(bytes.subrange(0, self.status_end as int))
                &&& self.status_end <= self.mark <= upto <= bytes.len()
                &&& header_lines(bytes, self.status_end as int, self.mark as int)
                &&& forall|k: int| self.mark <= k < upto ==> bytes[k] != LINE_FEED
            },
            Stage::Established => {
                &&& line_end(bytes, 0) == Some(self.status_end as int)
                &&& names_success(bytes.subrange(0, self.status_end as int))
                &&& head_end(bytes, self.status_end as int) == Some(self.mark as int)
            },
            Stage::Rejected => {
                &&& line_end(bytes, 0) == Some(self.status_end as int)
                &&& !names_success(bytes.subrange(0, self.status_end as int))
            },
        }
    }

    /// The bookkeeping agrees with the bytes received.
    pub closed spec fn wf(&self) -> bool {
        self.scanned(self.received@.len() as int)
    }

    proof fn lemma_scanned_stable(self, longer: Self, more: Seq<u8>, upto: int)
        requires
            self.scanned(upto),
            longer.received@ == self.received@ + more,
            longer.stage == self.stage,
            longer.status_end == self.status_end,
            longer.mark == self.mark,
        ensures
            longer.scanned(upto),
    {
        let bytes = self.received@;
        let status_end = self.status_end as int;
        if self.stage != Stage::StatusLine {
            lemma_line_end(bytes, 0);
            lemma_line_end_stable(bytes, more, 0);
            assert((bytes + more).subrange(0, status_end) =~= bytes.subrange(0, status_end));
        }
        if self.stage == Stage::Headers {
            lemma_header_lines_stable(bytes, more, status_end, self.mark as int);
        }
        if self.stage == Stage::Established {
            lemma_head_end_stable(bytes, more, status_end);
        }
    }

    proof fn lemma_wf_classify(self)
        requires
            self.wf(),
        ensures
            progress_of(classify(self@)) == match self.stage {
                Stage::StatusLine | Stage::Headers => Progress::Pending,
                Stage::Established => Progress::Established,
                Stage::Rejected => Progress::Rejected,
            },
            self.stage == Stage::StatusLine <==> line_end(self@, 0) is None,
            self.stage != Stage::StatusLine ==> line_end(self@, 0) == Some(self.status_end as int),
            self.stage == Stage::Established ==> head_end(self@, self.status_end as int) == Some(
                self.mark as int,
            ),
    {
        let bytes = self.received@;
        lemma_line_end(bytes, 0);
        if self.stage == Stage::Headers {
            lemma_head_end_skips(bytes, self.status_end as int, self.mark as int);
            lemma_line_end(bytes, self.mark as int);
        }
    }

    /// A handshake that has received nothing yet.
    pub fn new() -> (handshake: Self)
        ensures
            handshake.wf(),
            handshake@ == Seq::<u8>::empty(),
    {
        Handshake { received: Vec::new(), stage: Stage::StatusLine, status_end: 0, mark: 0 }
    }

    /// Where the handshake stands on the bytes received so far.
    pub fn progress(&self) -> (progress: Progress)
        requires
            self.wf(),
        ensures
            progress == progress_of(classify(self@)),
    {
        proof {
            self.lemma_wf_classify();
        }
        match self.stage {
            Stage::StatusLine | Stage::Headers => Progress::Pending,
            Stage::Established => Progress::Established,
            Stage::Rejected => Progress::Rejected,
        }
    }

    /// Takes the next bytes that arrived from the proxy and says where the
    /// handshake stands with them.
    ///
    /// The pieces may be cut anywhere: only their concatenation counts.
    pub fn receive(&mut self, chunk: &[u8]) -> (progress: Progress)
        requires
            old(self).wf(),
        ensures
            final(self).wf(),
            final(self)@ == old(self)@ + chunk@,
            progress == progress_of(classify(final(self)@)),
    {
        let start = self.received.len();
        self.received.extend_from_slice(chunk);
        proof {
            assert(self.received@ =~= old(self).received@ + chunk@);
            old(self).lemma_scanned_stable(*self, chunk@, start as int);
        }
        let mut at = start;
        while at < self.received.len() && (self.stage == Stage::StatusLine || self.stage
            == Stage::Headers)
            invariant
                self.received@ == old(self).received@ + chunk@,
                at <= self.received@.len(),
                self.scanned(at as int),
            decreases self.received@.len() - at,
        {
            if self.received[at] == LINE_FEED {
                let ghost bytes = self.received@;
                match self.stage {
                    Stage::StatusLine => {
                        proof {
                            lemma_line_end_at(bytes, 0, at as int);
                        }
                        self.status_end = at + 1;
                        if mentions_success(&self.received, at + 1) {
                            self.stage = Stage::Headers;
                            self.mark = at + 1;
                        } else {
                            self.stage = Stage::Rejected;
                        }
                    },
                    _ => {
                        let blank = at == self.mark || (at == self.mark + 1
                            && self.received[self.mark] == CARRIAGE_RETURN);
                        proof {
                            lemma_line_end_at(bytes, self.mark as int, at as int);
                            lemma_head_end_skips(bytes, self.status_end as int, self.mark as int);
                            let line = bytes.subrange(self.mark as int, at + 1);
                            assert(blank == is_blank_line(line)) by {
                                if is_blank_line(line) {
                                    assert(line.len() == 1 || line.len() == 2);
                                    assert(line.len() == 2 ==> line[0] == CARRIAGE_RETURN);
                                }
                            }
                            if !blank {
                                lemma_header_lines_grow(
                                    bytes,
                                    self.status_end as int,
                                    self.mark as int,
                                    at + 1,
                                );
                            }
                        }
                        if blank {
                            self.stage = Stage::Established;
                        }
                        self.mark = at + 1;
                    },
                }
            }
            at += 1;
        }
        self.progress()
    }

    /// The bytes received after the head, once the handshake is established;
    /// none before that, and none after a refusal.
    pub fn surplus(&self) -> (bytes: &[u8])
        requires
            self.wf(),
        ensures
            bytes@ == surplus_of(classify(self@)),
    {
        proof {
            self.lemma_wf_classify();
            lemma_head_end_bound(self@, self.status_end as int);
        }
        let all = self.received.as_slice();
        match self.stage {
            Stage::Established => slice_subrange(all, self.mark, all.len()),
            _ => slice_subrange(all, 0, 0),
        }
    }

    /// What to show for a refusal, should the handshake end as it stands: the
    /// status line if it is complete, else all that was received. Nothing
    /// once the handshake is established.
    pub fn diagnostic(&self) -> (bytes: &[u8])
        requires
            self.wf(),
        ensures
            bytes@ == diagnostic_of(conclude(self@)),
    {
        proof {
            self.lemma_wf_classify();
            lemma_line_end(self@, 0);
        }
        let all = self.received.as_slice();
        match self.stage {
            Stage::Established => slice_subrange(all, 0, 0),
            Stage::StatusLine => slice_subrange(all, 0, all.len()),
            _ => slice_subrange(all, 0, self.status_end),
        }
    }

    /// Ends the handshake on what has been received: the verdict if there is
    /// one, and a rejection if the reply is still incomplete, as it is when
    /// the stream ends early.
    pub fn finish(self) -> (verdict: Verdict)
        requires
            self.wf(),
        ensures
            verdict@ == conclude(self@),
    {
        proof {
            self.lemma_wf_classify();
            lemma_head_end_bound(self@, self.status_end as int);
            lemma_line_end(self@, 0);
        }
        let mut received = self.received;
        match self.stage {
            Stage::Established => {
                let surplus = received.split_off(self.mark);
                Verdict::Established { surplus }
            },
            Stage::StatusLine => Verdict::Rejected { diagnostic: received },
            _ => {
                received.truncate(self.status_end);
                Verdict::Rejected { diagnostic: received }
            },
        }
    }
}

/// Reads `response` as everything the proxy sent.
pub fn judge(response: &[u8]) -> (verdict: Verdict)
    ensures
        verdict@ == conclude(response@),
{
    let mut handshake = Handshake::new();
    handshake.receive(response);
    handshake.finish()
}

/// `bytes` read as text, with the replacement character for whatever in them
/// is not UTF-8.
///
/// The decoding is the standard library's; this name stands for what it
/// returns.
pub uninterp spec fn lossy_text(bytes: Seq<u8>) -> Seq<char>;

/// Decodes `bytes` with `String::from_utf8_lossy`.
///
/// Trusted: the text returned is a function of the bytes alone, named
/// [`lossy_text`], and bytes that are UTF-8 throughout come back as the text
/// that they encode.
#[verifier::external_body]
fn decode_lossy(bytes: &[u8]) -> (text: String)
    ensures
        text@ == lossy_text(bytes@),
        valid_utf8(bytes@) ==> text@ == decode_utf8(bytes@),
{
    String::from_utf8_lossy(bytes).into_owned()
}

/// The message for a refusal whose diagnostic reads `text`.
pub open spec fn refusal_text(text: Seq<char>) -> Seq<char> {
    "Proxy failed: "@ + text
}

/// The message that reports a refusal, from the diagnostic as text.
pub fn refusal_message(text: &str) -> (message: String)
    ensures
        message@ == refusal_text(text@),
{
    let mut message = String::from_str("Proxy failed: ");
    message.append(text);
    message
}

/// The message that reports a refusal, from the diagnostic as it was
/// received: the diagnostic follows the words `Proxy failed: ` as text, bytes
/// that are not UTF-8 replaced.
pub fn rejection_message(diagnostic: &[u8]) -> (message: String)
    ensures
        message@ == refusal_text(lossy_text(diagnostic@)),
        valid_utf8(diagnostic@) ==> message@ == refusal_text(decode_utf8(diagnostic@)),
{
    let text = decode_lossy(diagnostic);
    refusal_message(text.as_str())
}

} // verus!
