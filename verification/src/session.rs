//! The two ways to the destination, compared.
//!
//! On the direct way the relay starts at once, and the local output receives
//! what the destination sends. Through a proxy the tunnel first reads the
//! proxy's reply, hands the surplus of it to the local output, and the relay
//! takes over from there. The laws of this module say that the local output
//! cannot tell the difference.

use vstd::prelude::*;

use crate::relay::{forwarded, joined, lemma_relay_preserves_bytes, pieces_fit};
use crate::reply::{
    classify, is_blank_line, is_line, lemma_decided_stays, lemma_other_status_is_refused,
    lemma_success_is_accepted, names_success, surplus_of, Reply,
};
use crate::tunnel::{after_received, Phase};

verus! {

/// What reaches the local output on the direct way, when the destination's
/// bytes arrive in `pieces`, one for each read.
pub open spec fn direct_output(pieces: Seq<&[u8]>) -> Seq<u8> {
    forwarded(pieces)
}

/// What reaches the local output through a proxy, when the connection
/// delivers `pieces`, one for each read, to a tunnel that has read `reply` so
/// far and is still reading: the surplus of the reply once it is accepted,
/// and then what the relay forwards of the remaining pieces. `None` where
/// the tunnel does not open.
pub open spec fn proxied_output(reply: Seq<u8>, pieces: Seq<&[u8]>) -> Option<Seq<u8>>
    decreases pieces.len(),
{
    if pieces.len() == 0 {
        None
    } else {
        let longer = reply + pieces.first()@;
        match after_received(Phase::Reading, longer, pieces.first()@.len()) {
            Phase::Reading => proxied_output(longer, pieces.drop_first()),
            Phase::Delivering => Some(
                surplus_of(classify(longer)) + forwarded(pieces.drop_first()),
            ),
            _ => None,
        }
    }
}

/// If the reply read so far and the pieces still to come make a reply that is
/// accepted, the local output receives exactly its surplus, wherever the
/// pieces are cut.
pub proof fn lemma_surplus_reaches_output(reply: Seq<u8>, pieces: Seq<&[u8]>, traffic: Seq<u8>)
    requires
        pieces_fit(pieces),
        classify(reply) is Incomplete,
        classify(reply + joined(pieces)) == (Reply::Accepted { surplus: traffic }),
    ensures
        proxied_output(reply, pieces) == Some(traffic),
    decreases pieces.len(),
{
    if pieces.len() > 0 {
        let rest = pieces.drop_first();
        let longer = reply + pieces.first()@;
        assert(longer + joined(rest) =~= reply + joined(pieces));
        lemma_decided_stays(longer, joined(rest));
        if classify(longer) is Incomplete {
            lemma_surplus_reaches_output(longer, rest, traffic);
        } else {
            lemma_relay_preserves_bytes(rest);
        }
    }
}

/// Whatever follows the head of an accepted reply reaches the local output
/// untouched: with a status line that holds `200`, any header lines and the
/// empty line in front, the local output receives through the proxy what it
/// would receive from the same traffic on the direct way. Neither the cuts
/// between the reads on the proxy's connection nor those on the direct one
/// matter.
pub proof fn lemma_proxy_passes_traffic(
    status: Seq<u8>,
    headers: Seq<Seq<u8>>,
    blank: Seq<u8>,
    proxied: Seq<&[u8]>,
    direct: Seq<&[u8]>,
)
    requires
        is_line(status),
        names_success(status),
        forall|i: int|
            0 <= i < headers.len() ==> is_line(#[trigger] headers[i]) && !is_blank_line(headers[i]),
        is_blank_line(blank),
        pieces_fit(proxied),
        pieces_fit(direct),
        joined(proxied) == status + headers.flatten() + blank + joined(direct),
    ensures
        proxied_output(Seq::<u8>::empty(), proxied) == Some(direct_output(direct)),
        direct_output(direct) == joined(direct),
{
    let none = Seq::<u8>::empty();
    lemma_success_is_accepted(status, headers, blank, joined(direct));
    lemma_relay_preserves_bytes(direct);
    lemma_surplus_reaches_output(none, proxied, joined(direct));
}

/// The tunnel is transparent: a proxy that answers with a status line that
/// holds `200` and an empty header block, and from then on passes on what the
/// destination sends, gives the local output what the direct way gives it.
pub proof fn lemma_tunnel_is_transparent(
    status: Seq<u8>,
    blank: Seq<u8>,
    proxied: Seq<&[u8]>,
    direct: Seq<&[u8]>,
)
    requires
        is_line(status),
        names_success(status),
        is_blank_line(blank),
        pieces_fit(proxied),
        pieces_fit(direct),
        joined(proxied) == status + blank + joined(direct),
    ensures
        proxied_output(Seq::<u8>::empty(), proxied) == Some(direct_output(direct)),
{
    let none = Seq::<Seq<u8>>::empty();
    lemma_proxy_passes_traffic(status, none, blank, proxied, direct);
}

/// After a status line that does not hold `200` nothing reaches the local
/// output, whatever the proxy sends with it or after it.
pub proof fn lemma_refusal_passes_nothing(status: Seq<u8>, reply: Seq<u8>, pieces: Seq<&[u8]>)
    requires
        is_line(status),
        !names_success(status),
        pieces_fit(pieces),
        classify(reply) is Incomplete,
        status.is_prefix_of(reply + joined(pieces)),
    ensures
        proxied_output(reply, pieces) is None,
    decreases pieces.len(),
{
    if pieces.len() > 0 {
        let rest = pieces.drop_first();
        let longer = reply + pieces.first()@;
        let whole = reply + joined(pieces);
        assert(longer + joined(rest) =~= whole);
        let after = whole.subrange(status.len() as int, whole.len() as int);
        assert(whole =~= status + after);
        lemma_other_status_is_refused(status, after);
        lemma_decided_stays(longer, joined(rest));
        if classify(longer) is Incomplete {
            lemma_refusal_passes_nothing(status, longer, rest);
        }
    }
}

} // verus!
