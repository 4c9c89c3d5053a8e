//! Sending one datagram to the first target that takes it.
use bytes::Bytes;
use vstd::prelude::*;

use crate::addr::{normalize_v4_mapped, normalized, v4_mapped, SocketAddr};
use crate::error::Error;
use crate::packet::content;

verus! {

/// A datagram that is being sent: it is to go to `to`, and the targets from `next` on
/// are still to be tried. `last_err` is why the last target before `to` was passed over.
#[derive(Debug, PartialEq, Eq)]
pub struct Sending<E, B = Bytes, T = Vec<SocketAddr>> {
    pub pkt: B,
    pub to: SocketAddr,
    pub targets: T,
    pub next: usize,
    pub ipv6: bool,
    pub last_err: Option<Error<E>>,
}

impl<E> View for Sending<E, Bytes, Vec<SocketAddr>> {
    type V = Sending<E, Seq<u8>, Seq<SocketAddr>>;

    open spec fn view(&self) -> Sending<E, Seq<u8>, Seq<SocketAddr>> {
        Sending {
            pkt: content(self.pkt),
            to: self.to,
            targets: self.targets@,
            next: self.next,
            ipv6: self.ipv6,
            last_err: self.last_err,
        }
    }
}

/// What to do next with a datagram.
#[derive(Debug, PartialEq, Eq)]
pub enum SendAction<E, B = Bytes, T = Vec<SocketAddr>> {
    /// Send `pkt` to `to` through the IPv4 socket, and report how that went.
    ToV4(Sending<E, B, T>),
    /// Send `pkt` to `to` through the IPv6 socket, and report how that went.
    ToV6(Sending<E, B, T>),
    /// Nothing more: it was delivered, or this is why it was not.
    Done(Result<(), Error<E>>),
}

impl<E> View for SendAction<E, Bytes, Vec<SocketAddr>> {
    type V = SendAction<E, Seq<u8>, Seq<SocketAddr>>;

    open spec fn view(&self) -> SendAction<E, Seq<u8>, Seq<SocketAddr>> {
        match self {
            SendAction::ToV4(s) => SendAction::ToV4(s@),
            SendAction::ToV6(s) => SendAction::ToV6(s@),
            SendAction::Done(result) => SendAction::Done(*result),
        }
    }
}

pub type SendingView<E> = Sending<E, Seq<u8>, Seq<SocketAddr>>;

pub type SendActionView<E> = SendAction<E, Seq<u8>, Seq<SocketAddr>>;

/// Whether there is a socket for target `t`.
pub open spec fn sendable(ipv6: bool, t: SocketAddr) -> bool {
    ipv6 || normalized(t) is V4
}

/// Why a datagram was not delivered: the last error, or that there was no target.
pub open spec fn final_error<E>(last_err: Option<Error<E>>) -> Error<E> {
    match last_err {
        Some(err) => err,
        None => Error::NoTarget,
    }
}

/// The first target at or after `i` for which there is a socket; the end of the
/// list if there is none.
pub open spec fn next_sendable(targets: Seq<SocketAddr>, ipv6: bool, i: int) -> int
    decreases targets.len() - i,
{
    if i >= targets.len() || sendable(ipv6, targets[i]) {
        i
    } else {
        next_sendable(targets, ipv6, i + 1)
    }
}

/// The error that stands after the targets from `i` up to `j` were passed over
/// for want of a socket.
pub open spec fn error_after<E>(
    targets: Seq<SocketAddr>,
    i: int,
    j: int,
    last_err: Option<Error<E>>,
) -> Option<Error<E>> {
    if i < j {
        Some(Error::UdpRelayIpv6Disabled(normalized(targets[j - 1])))
    } else {
        last_err
    }
}

/// How sending `pkt` to `targets` goes on from target `i`, where `last_err` stands so
/// far: the next target with a socket is tried, or the sending ends.
pub open spec fn tried<E>(
    pkt: Seq<u8>,
    targets: Seq<SocketAddr>,
    ipv6: bool,
    i: int,
    last_err: Option<Error<E>>,
) -> SendActionView<E> {
    let j = next_sendable(targets, ipv6, i);
    let err = error_after(targets, i, j, last_err);
    if j >= targets.len() {
        SendAction::Done(Err(final_error(err)))
    } else {
        let to = normalized(targets[j]);
        let sending = Sending { pkt, to, targets, next: (j + 1) as usize, ipv6, last_err: err };
        match to {
            SocketAddr::V4(_) => SendAction::ToV4(sending),
            SocketAddr::V6(_) => SendAction::ToV6(sending),
        }
    }
}

/// How sending goes on once the system took the datagram, or refused it.
pub open spec fn replied<E>(s: SendingView<E>, outcome: Result<(), E>) -> SendActionView<E> {
    match outcome {
        Ok(_) => SendAction::Done(Ok(())),
        Err(e) => tried(s.pkt, s.targets, s.ipv6, s.next as int, Some(Error::Io(e))),
    }
}

/// Pass over the targets without a socket, from target `first` on, and try the next one.
fn advance<E>(
    pkt: Bytes,
    targets: Vec<SocketAddr>,
    ipv6: bool,
    first: usize,
    entry_err: Option<Error<E>>,
) -> (r: SendAction<E>)
    ensures
        r@ == tried(content(pkt), targets@, ipv6, first as int, entry_err),
{
    let mut next: usize = first;
    let mut last_err = entry_err;
    while next < targets.len()
        invariant
            first <= next,
            next_sendable(targets@, ipv6, first as int) == next_sendable(
                targets@,
                ipv6,
                next as int,
            ),
            last_err == error_after(targets@, first as int, next as int, entry_err),
        decreases targets.len() - next,
    {
        let to = normalize_v4_mapped(targets[next]);
        next = next + 1;
        match to {
            SocketAddr::V4(_) => {
                return SendAction::ToV4(Sending { pkt, to, targets, next, ipv6, last_err });
            },
            SocketAddr::V6(_) => {
                if ipv6 {
                    return SendAction::ToV6(Sending { pkt, to, targets, next, ipv6, last_err });
                }
                last_err = Some(Error::UdpRelayIpv6Disabled(to));
            },
        }
    }
    SendAction::Done(
        Err(
            match last_err {
                Some(err) => err,
                None => Error::NoTarget,
            },
        ),
    )
}

impl<E> Sending<E> {
    /// The system took the datagram, or refused it; what to do next. A refusal
    /// moves on to the next target.
    pub fn reply(self, outcome: Result<(), E>) -> (r: SendAction<E>)
        ensures
            r@ == replied(self@, outcome),
    {
        match outcome {
            Ok(()) => SendAction::Done(Ok(())),
            Err(e) => advance(self.pkt, self.targets, self.ipv6, self.next, Some(Error::Io(e))),
        }
    }
}

/// Send `pkt` to the first target that takes it, trying `targets` in order
/// and moving on after any error. IPv6 targets require the IPv6 socket; where it
/// is absent (`ipv6` is false) the IPv6 target fails and the next one is tried,
/// which is how `Prefer64` degrades to IPv4. The last error is the result if
/// every target fails.
pub fn send_to_first<E>(ipv6: bool, pkt: Bytes, targets: Vec<SocketAddr>) -> (r: SendAction<E>)
    ensures
        r@ == tried::<E>(content(pkt), targets@, ipv6, 0, None),
{
    advance(pkt, targets, ipv6, 0, None)
}

/// How the system answers a datagram sent to target `i`, for each `i`.
pub type Network<E> = spec_fn(int) -> Result<(), E>;

/// The result of sending to `targets` from `i` on, where `last_err` stands so far:
/// the first target that the network takes the datagram for ends it, and each error
/// replaces the one before.
pub open spec fn sent<E>(
    targets: Seq<SocketAddr>,
    ipv6: bool,
    i: int,
    last_err: Option<Error<E>>,
    network: Network<E>,
) -> Result<(), Error<E>>
    decreases targets.len() - i,
    when 0 <= i <= targets.len()
{
    proof {
        targets_are_tried_in_order(targets, ipv6, i);
    }
    let j = next_sendable(targets, ipv6, i);
    if j >= targets.len() {
        Err(final_error(error_after(targets, i, j, last_err)))
    } else {
        match network(j) {
            Ok(_) => Ok(()),
            Err(e) => sent(targets, ipv6, j + 1, Some(Error::Io(e)), network),
        }
    }
}

/// The step that follows `step`: the network's answer for the target just tried is
/// handed to `reply`. Nothing follows the end.
pub open spec fn step_after<E>(step: SendActionView<E>, network: Network<E>) -> SendActionView<E> {
    match step {
        SendAction::ToV4(s) => replied(s, network(s.next - 1)),
        SendAction::ToV6(s) => replied(s, network(s.next - 1)),
        SendAction::Done(_) => step,
    }
}

/// Where a run that is at `step` stands after `k` more steps.
pub open spec fn steps_after<E>(
    step: SendActionView<E>,
    network: Network<E>,
    k: nat,
) -> SendActionView<E>
    decreases k,
{
    if k == 0 {
        step
    } else {
        step_after(steps_after(step, network, (k - 1) as nat), network)
    }
}

/// Targets are tried in order: the next one to be sent to comes no earlier than
/// `i`, and of those passed over none has a socket.
pub proof fn targets_are_tried_in_order(targets: Seq<SocketAddr>, ipv6: bool, i: int)
    requires
        0 <= i <= targets.len(),
    ensures
        i <= next_sendable(targets, ipv6, i) <= targets.len(),
        next_sendable(targets, ipv6, i) < targets.len() ==> sendable(
            ipv6,
            targets[next_sendable(targets, ipv6, i)],
        ),
        forall|k: int|
            i <= k < next_sendable(targets, ipv6, i) ==> !sendable(ipv6, #[trigger] targets[k]),
    decreases targets.len() - i,
{
    if i < targets.len() && !sendable(ipv6, targets[i]) {
        targets_are_tried_in_order(targets, ipv6, i + 1);
    }
}

/// Target `i` takes the datagram: it has a socket and the network accepts it.
pub open spec fn takes<E>(targets: Seq<SocketAddr>, ipv6: bool, network: Network<E>, i: int) -> bool {
    0 <= i < targets.len() && sendable(ipv6, targets[i]) && network(i) is Ok
}

/// Why target `i` does not take the datagram.
pub open spec fn refusal<E>(
    targets: Seq<SocketAddr>,
    ipv6: bool,
    network: Network<E>,
    i: int,
) -> Error<E> {
    if sendable(ipv6, targets[i]) {
        Error::Io(network(i)->Err_0)
    } else {
        Error::UdpRelayIpv6Disabled(normalized(targets[i]))
    }
}

proof fn lemma_sent<E>(
    targets: Seq<SocketAddr>,
    ipv6: bool,
    i: int,
    last_err: Option<Error<E>>,
    network: Network<E>,
)
    requires
        0 <= i <= targets.len(),
        i > 0 ==> last_err == Some(refusal(targets, ipv6, network, i - 1)),
        i == 0 ==> last_err is None,
    ensures
        sent(targets, ipv6, i, last_err, network) is Ok <==> exists|k: int|
            i <= k && #[trigger] takes(targets, ipv6, network, k),
        sent(targets, ipv6, i, last_err, network) matches Err(e) ==> e == (if targets.len() == 0 {
            Error::NoTarget
        } else {
            refusal(targets, ipv6, network, targets.len() - 1)
        }),
    decreases targets.len() - i,
{
    let j = next_sendable(targets, ipv6, i);
    targets_are_tried_in_order(targets, ipv6, i);
    if j < targets.len() {
        match network(j) {
            Ok(_) => {
                assert(takes(targets, ipv6, network, j));
            },
            Err(e) => {
                lemma_sent(targets, ipv6, j + 1, Some(Error::Io(e)), network);
                assert forall|k: int| i <= k && #[trigger] takes(targets, ipv6, network, k) implies j
                    + 1 <= k by {
                    if k < j {
                        assert(!sendable(ipv6, targets[k]));
                    }
                }
            },
        }
    } else {
        assert forall|k: int| i <= k implies !#[trigger] takes(targets, ipv6, network, k) by {
            if k < targets.len() {
                assert(!sendable(ipv6, targets[k]));
            }
        }
        if i < j {
            assert(!sendable(ipv6, targets[j - 1]));
        }
    }
}

/// A datagram is delivered exactly if some target takes it. Where none does, the
/// result is why the last target did not, or that there was no target.
pub proof fn delivered_iff_some_target_takes_it<E>(
    targets: Seq<SocketAddr>,
    ipv6: bool,
    network: Network<E>,
)
    ensures
        sent(targets, ipv6, 0, None, network) is Ok <==> exists|k: int| #[trigger]
            takes(targets, ipv6, network, k),
        sent(targets, ipv6, 0, None, network) matches Err(e) ==> e == (if targets.len() == 0 {
            Error::NoTarget
        } else {
            refusal(targets, ipv6, network, targets.len() - 1)
        }),
{
    lemma_sent(targets, ipv6, 0, None, network);
    if exists|k: int| #[trigger] takes(targets, ipv6, network, k) {
        let k = choose|k: int| #[trigger] takes(targets, ipv6, network, k);
        assert(0 <= k && takes(targets, ipv6, network, k));
    }
}

proof fn lemma_first_step<E>(step: SendActionView<E>, network: Network<E>, k: nat)
    ensures
        steps_after(step, network, k + 1) == steps_after(step_after(step, network), network, k),
    decreases k,
{
    reveal_with_fuel(steps_after, 2);
    if k > 0 {
        lemma_first_step(step, network, (k - 1) as nat);
    }
}

proof fn lemma_ended<E>(result: Result<(), Error<E>>, network: Network<E>, k: nat)
    ensures
        steps_after(SendAction::Done(result), network, k) == SendActionView::<E>::Done(result),
    decreases k,
{
    if k > 0 {
        lemma_ended(result, network, (k - 1) as nat);
    }
}

proof fn lemma_run<E>(
    pkt: Seq<u8>,
    targets: Seq<SocketAddr>,
    ipv6: bool,
    i: int,
    last_err: Option<Error<E>>,
    network: Network<E>,
    k: nat,
)
    requires
        0 <= i <= targets.len() <= usize::MAX,
        targets.len() - i <= k,
    ensures
        steps_after(tried(pkt, targets, ipv6, i, last_err), network, k) == SendActionView::<E>::Done(
            sent(targets, ipv6, i, last_err, network),
        ),
    decreases k,
{
    let step = tried(pkt, targets, ipv6, i, last_err);
    let j = next_sendable(targets, ipv6, i);
    targets_are_tried_in_order(targets, ipv6, i);
    if j >= targets.len() {
        lemma_ended(sent(targets, ipv6, i, last_err, network), network, k);
    } else {
        lemma_first_step(step, network, (k - 1) as nat);
        match network(j) {
            Ok(_) => {
                lemma_ended(Ok::<(), Error<E>>(()), network, (k - 1) as nat);
            },
            Err(e) => {
                lemma_run(pkt, targets, ipv6, j + 1, Some(Error::Io(e)), network, (k - 1) as nat);
            },
        }
    }
}

/// A run that starts as `send_to_first` does and goes on as `reply` does, whatever the
/// network answers, has ended after as many replies as there are targets, with the
/// result `sent`.
pub proof fn a_run_ends_as_sent<E>(
    pkt: Seq<u8>,
    targets: Seq<SocketAddr>,
    ipv6: bool,
    network: Network<E>,
)
    requires
        targets.len() <= usize::MAX,
    ensures
        steps_after(tried(pkt, targets, ipv6, 0, None), network, targets.len())
            == SendActionView::<E>::Done(sent(targets, ipv6, 0, None, network)),
{
    lemma_run(pkt, targets, ipv6, 0, None, network, targets.len());
}

/// `s` sends `pkt` to what target `i` reaches, and goes on behind it.
pub open spec fn sends_to<E>(
    s: SendingView<E>,
    pkt: Seq<u8>,
    targets: Seq<SocketAddr>,
    ipv6: bool,
    i: int,
) -> bool {
    &&& 0 <= i < targets.len()
    &&& s.pkt == pkt
    &&& s.to == normalized(targets[i])
    &&& s.targets == targets
    &&& s.ipv6 == ipv6
    &&& s.next == i + 1
    &&& sendable(ipv6, targets[i])
}

/// At every step of a run it is the datagram handed to `send_to_first`, with all its
/// bytes, that goes to a socket. It goes to what one of the targets reaches, and after
/// `k` replies to none of the first `k`. Each socket gets addresses of its own family:
/// an IPv4-mapped address goes to the IPv4 socket as IPv4, and without IPv6 relay
/// nothing goes to the IPv6 socket.
pub proof fn the_datagram_goes_to_its_targets<E>(
    pkt: Seq<u8>,
    targets: Seq<SocketAddr>,
    ipv6: bool,
    network: Network<E>,
    k: nat,
)
    requires
        targets.len() <= usize::MAX,
    ensures
        match steps_after(tried(pkt, targets, ipv6, 0, None), network, k) {
            SendAction::ToV4(s) => s.to is V4 && k < s.next && sends_to(
                s,
                pkt,
                targets,
                ipv6,
                s.next - 1,
            ),
            SendAction::ToV6(s) => s.to is V6 && !v4_mapped(s.to) && ipv6 && k < s.next && sends_to(
                s,
                pkt,
                targets,
                ipv6,
                s.next - 1,
            ),
            SendAction::Done(_) => true,
        },
    decreases k,
{
    if k == 0 {
        targets_are_tried_in_order(targets, ipv6, 0);
    } else {
        the_datagram_goes_to_its_targets(pkt, targets, ipv6, network, (k - 1) as nat);
        match steps_after(tried(pkt, targets, ipv6, 0, None), network, (k - 1) as nat) {
            SendAction::ToV4(s) => {
                targets_are_tried_in_order(targets, ipv6, s.next as int);
            },
            SendAction::ToV6(s) => {
                targets_are_tried_in_order(targets, ipv6, s.next as int);
            },
            SendAction::Done(_) => {},
        }
    }
}

/// Without IPv6 relay an IPv6 target with an IPv4 fallback degrades to IPv4: the
/// fallback is what is sent to, and it alone decides.
pub proof fn ipv6_preference_degrades_to_ipv4<E>(
    v6: SocketAddr,
    v4: SocketAddr,
    pkt: Seq<u8>,
    network: Network<E>,
)
    requires
        v6 is V6,
        !v4_mapped(v6),
        v4 is V4,
    ensures
        ({
            let targets = seq![v6, v4];
            &&& tried::<E>(pkt, targets, false, 0, None) matches SendAction::ToV4(s)
            &&& s.to == v4 && s.pkt == pkt
            &&& sent(targets, false, 0, None, network) is Ok <==> network(1) is Ok
        }),
{
    let targets = seq![v6, v4];
    reveal_with_fuel(next_sendable, 2);
    delivered_iff_some_target_takes_it(targets, false, network);
    if network(1) is Ok {
        assert(takes(targets, false, network, 1));
    }
}

/// With IPv6 relay there is a socket for every target, and without it for exactly those
/// that reach an IPv4 address.
pub proof fn who_has_a_socket(t: SocketAddr)
    ensures
        sendable(true, t),
        sendable(false, t) <==> normalized(t) is V4,
{
}

/// A datagram is delivered exactly if the network takes it for some target that has a
/// socket. Otherwise the result tells of the last target: what the network answered, or
/// that there was no socket for it; and of an empty list, that there was no target.
pub proof fn the_last_target_has_the_last_word<E>(
    targets: Seq<SocketAddr>,
    ipv6: bool,
    network: Network<E>,
)
    ensures
        sent(targets, ipv6, 0, None, network) is Ok <==> exists|k: int|
            #![trigger network(k)]
            0 <= k < targets.len() && (ipv6 || normalized(targets[k]) is V4) && network(k) is Ok,
        sent(targets, ipv6, 0, None, network) matches Err(err) ==> {
            let last = targets.len() - 1;
            if targets.len() == 0 {
                err is NoTarget
            } else if ipv6 || normalized(targets[last]) is V4 {
                network(last) matches Err(e) && err == Error::Io(e)
            } else {
                err == Error::<E>::UdpRelayIpv6Disabled(normalized(targets[last]))
            }
        },
{
    delivered_iff_some_target_takes_it(targets, ipv6, network);
    if exists|k: int| #[trigger] takes(targets, ipv6, network, k) {
        let k = choose|k: int| #[trigger] takes(targets, ipv6, network, k);
        assert(network(k) is Ok);
    }
    if exists|k: int|
        #![trigger network(k)]
        0 <= k < targets.len() && (ipv6 || normalized(targets[k]) is V4) && network(k) is Ok {
        let k = choose|k: int|
            #![trigger network(k)]
            0 <= k < targets.len() && (ipv6 || normalized(targets[k]) is V4) && network(k) is Ok;
        assert(takes(targets, ipv6, network, k));
    }
    if targets.len() > 0 && sent(targets, ipv6, 0, None, network) is Err {
        assert(!takes(targets, ipv6, network, targets.len() - 1));
    }
}

/// At every step of a run a socket of the right family gets the datagram, whole, for what
/// the target before `next` reaches, and only once the network refused it for each
/// earlier target that has a socket.
pub proof fn a_fallback_comes_after_a_refusal<E>(
    pkt: Seq<u8>,
    targets: Seq<SocketAddr>,
    ipv6: bool,
    network: Network<E>,
    k: nat,
    s: SendingView<E>,
    i: int,
)
    requires
        targets.len() <= usize::MAX,
        ({
            let step = steps_after(tried(pkt, targets, ipv6, 0, None), network, k);
            step == SendActionView::<E>::ToV4(s) || step == SendActionView::<E>::ToV6(s)
        }),
    ensures
        0 < s.next <= targets.len(),
        s.pkt == pkt,
        s.to == normalized(targets[s.next - 1]),
        steps_after(tried(pkt, targets, ipv6, 0, None), network, k) is ToV4 <==> s.to is V4,
        s.to is V6 ==> ipv6,
        0 <= i < s.next - 1 && (ipv6 || normalized(targets[i]) is V4) ==> network(i) is Err,
    decreases k,
{
    the_datagram_goes_to_its_targets(pkt, targets, ipv6, network, k);
    if k == 0 {
        targets_are_tried_in_order(targets, ipv6, 0);
        if 0 <= i < s.next - 1 {
            assert(!sendable(ipv6, targets[i]));
        }
    } else {
        let before = steps_after(tried(pkt, targets, ipv6, 0, None), network, (k - 1) as nat);
        the_datagram_goes_to_its_targets(pkt, targets, ipv6, network, (k - 1) as nat);
        let t = match before {
            SendAction::ToV4(t) => t,
            SendAction::ToV6(t) => t,
            SendAction::Done(_) => s,
        };
        if !(before is Done) {
            a_fallback_comes_after_a_refusal(pkt, targets, ipv6, network, (k - 1) as nat, t, i);
            targets_are_tried_in_order(targets, ipv6, t.next as int);
            if t.next <= i < s.next - 1 {
                assert(!sendable(ipv6, targets[i]));
            }
        }
    }
}

/// A datagram that the system took is delivered, and nothing more is tried.
pub proof fn what_is_taken_is_delivered<E>(s: SendingView<E>)
    ensures
        replied(s, Ok(())) == SendActionView::<E>::Done(Ok(())),
{
}

} // verus!
