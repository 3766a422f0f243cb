//! The proxy's reply to a CONNECT request, as a matter of bytes.
//!
//! The reply is a status line and any number of header lines, closed by an
//! empty line. No length is announced: the end of the head is found by its
//! shape alone, and whatever follows it already belongs to the tunnelled
//! stream. The reply is accepted when its status line holds the token `200`.
//!
//! This module says what a run of bytes amounts to and proves what follows
//! from that. Reading a reply as it arrives is the work of the `handshake`
//! module.

use vstd::prelude::*;

verus! {

/// The byte that ends a line.
pub const LINE_FEED: u8 = 0x0a;

/// The byte that may precede the line feed of an empty line.
pub const CARRIAGE_RETURN: u8 = 0x0d;

/// ASCII `2`.
pub const DIGIT_TWO: u8 = 0x32;

/// ASCII `0`.
pub const DIGIT_ZERO: u8 = 0x30;

/// The index just past the first line feed at or after `from`: the end of the
/// line that starts at `from`. `None` while that line is unfinished.
pub open spec fn line_end(bytes: Seq<u8>, from: int) -> Option<int>
    recommends
        0 <= from,
    decreases bytes.len() - from,
{
    if from < 0 || from >= bytes.len() {
        None
    } else if bytes[from] == LINE_FEED {
        Some(from + 1)
    } else {
        line_end(bytes, from + 1)
    }
}

/// The token `200` stands at index `at` of `line`.
pub open spec fn success_at(line: Seq<u8>, at: int) -> bool {
    &&& 0 <= at
    &&& at + 3 <= line.len()
    &&& line[at] == DIGIT_TWO
    &&& line[at + 1] == DIGIT_ZERO
    &&& line[at + 2] == DIGIT_ZERO
}

/// The token `200` stands somewhere in `line`.
pub open spec fn names_success(line: Seq<u8>) -> bool {
    exists|at: int| success_at(line, at)
}

/// A complete line: it ends with a line feed and holds no other.
pub open spec fn is_line(line: Seq<u8>) -> bool {
    &&& line.len() > 0
    &&& line[line.len() - 1] == LINE_FEED
    &&& forall|k: int| 0 <= k < line.len() - 1 ==> line[k] != LINE_FEED
}

/// The empty line that ends the head: a line feed alone, or a carriage return
/// and a line feed.
pub open spec fn is_blank_line(line: Seq<u8>) -> bool {
    line =~= seq![LINE_FEED] || line =~= seq![CARRIAGE_RETURN, LINE_FEED]
}

/// The index just past the first empty line among the lines that start at
/// `from`: the end of the head. `None` while no empty line is complete.
pub open spec fn head_end(bytes: Seq<u8>, from: int) -> Option<int>
    recommends
        0 <= from,
    decreases bytes.len() - from,
{
    match line_end(bytes, from) {
        None => None,
        Some(end) => {
            if is_blank_line(bytes.subrange(from, end)) {
                Some(end)
            } else {
                proof {
                    lemma_line_end(bytes, from);
                }
                head_end(bytes, end)
            }
        },
    }
}

/// What a run of bytes received from the proxy amounts to.
pub enum Reply {
    /// Neither accepted nor refused yet: more bytes are needed.
    Incomplete,
    /// The status line names success and the head is complete. `surplus` is
    /// every byte after the head.
    Accepted { surplus: Seq<u8> },
    /// The proxy did not open the tunnel. `diagnostic` is the status line, or
    /// what there was of the reply if the stream ended early.
    Refused { diagnostic: Seq<u8> },
}

/// Reads `bytes` as the beginning of the proxy's reply.
///
/// A status line without `200` refuses at once, whatever follows. One with
/// `200` accepts as soon as the empty line has arrived.
pub open spec fn classify(bytes: Seq<u8>) -> Reply {
    match line_end(bytes, 0) {
        None => Reply::Incomplete,
        Some(status_end) => {
            let status_line = bytes.subrange(0, status_end);
            if !names_success(status_line) {
                Reply::Refused { diagnostic: status_line }
            } else {
                match head_end(bytes, status_end) {
                    None => Reply::Incomplete,
                    Some(end) => Reply::Accepted { surplus: bytes.subrange(end, bytes.len() as int) },
                }
            }
        },
    }
}

/// Reads `bytes` as everything the proxy sent before the stream ended.
///
/// A reply that is still incomplete at that point is refused: with its status
/// line if that much arrived, else with all there is.
pub open spec fn conclude(bytes: Seq<u8>) -> Reply {
    match classify(bytes) {
        Reply::Incomplete => Reply::Refused {
            diagnostic: match line_end(bytes, 0) {
                Some(status_end) => bytes.subrange(0, status_end),
                None => bytes,
            },
        },
        decided => decided,
    }
}

/// The bytes that a reply leaves for the tunnelled stream: its surplus if it
/// is accepted, and none otherwise.
pub open spec fn surplus_of(reply: Reply) -> Seq<u8> {
    match reply {
        Reply::Accepted { surplus } => surplus,
        _ => Seq::<u8>::empty(),
    }
}

/// The diagnostic of a reply that is refused, and nothing otherwise.
pub open spec fn diagnostic_of(reply: Reply) -> Seq<u8> {
    match reply {
        Reply::Refused { diagnostic } => diagnostic,
        _ => Seq::<u8>::empty(),
    }
}

/// A reply is accepted when its status line names success and its head is
/// complete: a status line that holds `200`, any number of header lines, also
/// none, and the empty line. Every byte after the empty line is surplus,
/// untouched.
pub proof fn lemma_success_is_accepted(
    status: Seq<u8>,
    headers: Seq<Seq<u8>>,
    blank: Seq<u8>,
    rest: Seq<u8>,
)
    requires
        is_line(status),
        names_success(status),
        forall|i: int|
            0 <= i < headers.len() ==> is_line(#[trigger] headers[i]) && !is_blank_line(headers[i]),
        is_blank_line(blank),
    ensures
        classify(status + headers.flatten() + blank + rest) == (Reply::Accepted { surplus: rest }),
        conclude(status + headers.flatten() + blank + rest) == (Reply::Accepted { surplus: rest }),
{
    let bytes = status + headers.flatten() + blank + rest;
    let from = status.len() as int;
    let end = from + headers.flatten().len() + blank.len();
    lemma_line_end_at(bytes, 0, from - 1);
    assert(bytes.subrange(0, from) =~= status);
    assert(bytes.subrange(from, end) =~= headers.flatten() + blank);
    lemma_head_end_after(bytes, from, headers, blank);
    assert(bytes.subrange(end, bytes.len() as int) =~= rest);
}

/// A reply whose status line does not hold `200` is refused with that status
/// line, whatever follows it: there is no surplus to pass on.
pub proof fn lemma_other_status_is_refused(status: Seq<u8>, rest: Seq<u8>)
    requires
        is_line(status),
        !names_success(status),
    ensures
        classify(status + rest) == (Reply::Refused { diagnostic: status }),
        conclude(status + rest) == (Reply::Refused { diagnostic: status }),
{
    let bytes = status + rest;
    lemma_line_end_at(bytes, 0, status.len() - 1);
    assert(bytes.subrange(0, status.len() as int) =~= status);
}

/// Nothing else is accepted: a reply that is accepted is made of a status line
/// that holds `200`, header lines, the empty line and the surplus, in that
/// order and with nothing between them.
pub proof fn lemma_accepted_has_head(bytes: Seq<u8>) -> (parts: (Seq<u8>, Seq<Seq<u8>>, Seq<u8>))
    requires
        classify(bytes) is Accepted,
    ensures
        is_line(parts.0),
        names_success(parts.0),
        forall|i: int|
            0 <= i < parts.1.len() ==> is_line(#[trigger] parts.1[i]) && !is_blank_line(parts.1[i]),
        is_blank_line(parts.2),
        bytes == parts.0 + parts.1.flatten() + parts.2 + surplus_of(classify(bytes)),
{
    lemma_line_end(bytes, 0);
    let status_end = line_end(bytes, 0)->0;
    let end = head_end(bytes, status_end)->0;
    let status = bytes.subrange(0, status_end);
    let (headers, blank) = lemma_head_has_lines(bytes, status_end, end);
    assert(status + (headers.flatten() + blank) =~= status + headers.flatten() + blank);
    (status, headers, blank)
}

/// Nothing else is refused while the stream lasts: a reply that is refused
/// before its end starts with a complete line that does not hold `200`, and
/// that line is the diagnostic.
pub proof fn lemma_refused_has_status(bytes: Seq<u8>)
    requires
        classify(bytes) is Refused,
    ensures
        is_line(diagnostic_of(classify(bytes))),
        !names_success(diagnostic_of(classify(bytes))),
        diagnostic_of(classify(bytes)).is_prefix_of(bytes),
{
    lemma_line_end(bytes, 0);
}

/// Once the reply is decided, later bytes change nothing but the surplus.
pub proof fn lemma_decided_stays(bytes: Seq<u8>, more: Seq<u8>)
    ensures
        match classify(bytes) {
            Reply::Incomplete => true,
            Reply::Accepted { surplus } => classify(bytes + more) == (Reply::Accepted {
                surplus: surplus + more,
            }),
            Reply::Refused { diagnostic } => classify(bytes + more) == (Reply::Refused {
                diagnostic,
            }),
        },
{
    if line_end(bytes, 0) is Some {
        lemma_line_end(bytes, 0);
        lemma_line_end_stable(bytes, more, 0);
        let status_end = line_end(bytes, 0)->0;
        assert((bytes + more).subrange(0, status_end) =~= bytes.subrange(0, status_end));
        if names_success(bytes.subrange(0, status_end)) && head_end(bytes, status_end) is Some {
            lemma_head_end_stable(bytes, more, status_end);
            lemma_head_end_bound(bytes, status_end);
            let end = head_end(bytes, status_end)->0;
            assert((bytes + more).subrange(end, (bytes + more).len() as int) =~= bytes.subrange(
                end,
                bytes.len() as int,
            ) + more);
        }
    }
}

/// A stream that ends is never accepted on that account: the conclusion is an
/// acceptance only where the bytes received already were one.
pub proof fn lemma_early_end_is_refused(bytes: Seq<u8>)
    ensures
        conclude(bytes) !is Incomplete,
        conclude(bytes) is Accepted <==> classify(bytes) is Accepted,
{
}

/// What `line_end` returns, said without recursion.
pub proof fn lemma_line_end(bytes: Seq<u8>, from: int)
    requires
        0 <= from,
    ensures
        match line_end(bytes, from) {
            Some(end) => {
                &&& from < end <= bytes.len()
                &&& bytes[end - 1] == LINE_FEED
                &&& forall|k: int| from <= k < end - 1 ==> bytes[k] != LINE_FEED
            },
            None => forall|k: int| from <= k < bytes.len() ==> bytes[k] != LINE_FEED,
        },
    decreases bytes.len() - from,
{
    if from < bytes.len() && bytes[from] != LINE_FEED {
        lemma_line_end(bytes, from + 1);
    }
}

/// The first line feed at or after `from` fixes `line_end`.
pub proof fn lemma_line_end_at(bytes: Seq<u8>, from: int, feed: int)
    requires
        0 <= from <= feed < bytes.len(),
        bytes[feed] == LINE_FEED,
        forall|k: int| from <= k < feed ==> bytes[k] != LINE_FEED,
    ensures
        line_end(bytes, from) == Some(feed + 1),
    decreases feed - from,
{
    if from < feed {
        lemma_line_end_at(bytes, from + 1, feed);
    }
}

/// A finished line stays what it is when more bytes arrive.
pub proof fn lemma_line_end_stable(bytes: Seq<u8>, more: Seq<u8>, from: int)
    requires
        0 <= from,
        line_end(bytes, from) is Some,
    ensures
        line_end(bytes + more, from) == line_end(bytes, from),
{
    lemma_line_end(bytes, from);
    let end = line_end(bytes, from)->0;
    lemma_line_end_at(bytes + more, from, end - 1);
}

/// The head ends inside the bytes, after where the search began.
pub proof fn lemma_head_end_bound(bytes: Seq<u8>, from: int)
    requires
        0 <= from,
    ensures
        head_end(bytes, from) matches Some(end) ==> from < end <= bytes.len(),
    decreases bytes.len() - from,
{
    lemma_line_end(bytes, from);
    if line_end(bytes, from) is Some {
        let end = line_end(bytes, from)->0;
        if !is_blank_line(bytes.subrange(from, end)) {
            lemma_head_end_bound(bytes, end);
        }
    }
}

/// A finished head stays what it is when more bytes arrive.
pub proof fn lemma_head_end_stable(bytes: Seq<u8>, more: Seq<u8>, from: int)
    requires
        0 <= from,
        head_end(bytes, from) is Some,
    ensures
        head_end(bytes + more, from) == head_end(bytes, from),
    decreases bytes.len() - from,
{
    lemma_line_end(bytes, from);
    lemma_line_end_stable(bytes, more, from);
    let end = line_end(bytes, from)->0;
    if !is_blank_line(bytes.subrange(from, end)) {
        lemma_head_end_stable(bytes, more, end);
    }
}

/// The bytes from `from` up to `to` are complete lines, none of them empty.
pub open spec fn header_lines(bytes: Seq<u8>, from: int, to: int) -> bool
    recommends
        0 <= from,
    decreases to - from,
{
    if from >= to {
        from == to
    } else {
        match line_end(bytes, from) {
            None => false,
            Some(end) => {
                &&& end <= to
                &&& !is_blank_line(bytes.subrange(from, end))
                &&& {
                    proof {
                        lemma_line_end(bytes, from);
                    }
                    header_lines(bytes, end, to)
                }
            },
        }
    }
}

/// Header lines stay header lines when more bytes arrive.
pub proof fn lemma_header_lines_stable(bytes: Seq<u8>, more: Seq<u8>, from: int, to: int)
    requires
        0 <= from,
        header_lines(bytes, from, to),
    ensures
        header_lines(bytes + more, from, to),
    decreases to - from,
{
    if from < to {
        lemma_line_end(bytes, from);
        lemma_line_end_stable(bytes, more, from);
        let end = line_end(bytes, from)->0;
        lemma_header_lines_stable(bytes, more, end, to);
    }
}

/// The search for the empty line may skip header lines.
pub proof fn lemma_head_end_skips(bytes: Seq<u8>, from: int, to: int)
    requires
        0 <= from,
        header_lines(bytes, from, to),
    ensures
        from <= to,
        head_end(bytes, from) == head_end(bytes, to),
    decreases to - from,
{
    if from < to {
        lemma_line_end(bytes, from);
        let end = line_end(bytes, from)->0;
        lemma_head_end_skips(bytes, end, to);
    }
}

/// One more line that is not empty extends a run of header lines.
pub proof fn lemma_header_lines_grow(bytes: Seq<u8>, from: int, mid: int, to: int)
    requires
        0 <= from,
        header_lines(bytes, from, mid),
        line_end(bytes, mid) == Some(to),
        !is_blank_line(bytes.subrange(mid, to)),
    ensures
        header_lines(bytes, from, to),
    decreases mid - from,
{
    lemma_head_end_skips(bytes, from, mid);
    lemma_line_end(bytes, mid);
    if from < mid {
        lemma_line_end(bytes, from);
        let end = line_end(bytes, from)->0;
        lemma_header_lines_grow(bytes, end, mid, to);
    } else {
        assert(header_lines(bytes, to, to));
    }
}

/// The head that starts at `from` ends after the given header lines and the
/// empty line, if that is what stands there.
proof fn lemma_head_end_after(bytes: Seq<u8>, from: int, headers: Seq<Seq<u8>>, blank: Seq<u8>)
    requires
        0 <= from,
        from + headers.flatten().len() + blank.len() <= bytes.len(),
        bytes.subrange(from, from + headers.flatten().len() + blank.len()) == headers.flatten()
            + blank,
        forall|i: int|
            0 <= i < headers.len() ==> is_line(#[trigger] headers[i]) && !is_blank_line(headers[i]),
        is_blank_line(blank),
    ensures
        head_end(bytes, from) == Some(from + headers.flatten().len() + blank.len()),
    decreases headers.len(),
{
    let block = headers.flatten() + blank;
    if headers.len() == 0 {
        assert forall|j: int| from <= j < from + blank.len() implies bytes[j] == blank[j - from] by {
            assert(bytes[from + (j - from)] == block[j - from]);
        }
        lemma_line_end_at(bytes, from, from + blank.len() - 1);
    } else {
        let first = headers.first();
        let others = headers.drop_first();
        assert forall|k: int| 0 <= k < first.len() implies bytes[from + k] == first[k] by {
            assert(block[k] == first[k]);
        }
        assert forall|j: int| from <= j < from + first.len() implies bytes[j] == first[j - from] by {
            assert(bytes[from + (j - from)] == first[j - from]);
        }
        lemma_line_end_at(bytes, from, from + first.len() - 1);
        let next = from + first.len();
        assert(bytes.subrange(next, next + others.flatten().len() + blank.len())
            =~= others.flatten() + blank) by {
            let tail = others.flatten() + blank;
            assert forall|k: int| 0 <= k < tail.len() implies bytes[next + k] == tail[k] by {
                assert(block[first.len() + k] == tail[k]);
            }
        }
        lemma_head_end_after(bytes, next, others, blank);
    }
}

/// The lines of a head that ends at `end`: from `from` on the bytes are
/// header lines and then the empty line.
proof fn lemma_head_has_lines(bytes: Seq<u8>, from: int, end: int) -> (parts: (
    Seq<Seq<u8>>,
    Seq<u8>,
))
    requires
        0 <= from,
        head_end(bytes, from) == Some(end),
    ensures
        forall|i: int|
            0 <= i < parts.0.len() ==> is_line(#[trigger] parts.0[i]) && !is_blank_line(parts.0[i]),
        is_blank_line(parts.1),
        from < end <= bytes.len(),
        bytes.subrange(from, end) == parts.0.flatten() + parts.1,
    decreases bytes.len() - from,
{
    lemma_line_end(bytes, from);
    let stop = line_end(bytes, from)->0;
    let line = bytes.subrange(from, stop);
    if is_blank_line(line) {
        let none = Seq::<Seq<u8>>::empty();
        (none, line)
    } else {
        let (others, blank) = lemma_head_has_lines(bytes, stop, end);
        let headers = seq![line] + others;
        assert(headers.drop_first() =~= others);
        assert(line + (others.flatten() + blank) =~= (line + others.flatten()) + blank);
        (headers, blank)
    }
}

} // verus!
