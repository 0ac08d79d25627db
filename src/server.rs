//! The server side of the exchange: the rate limiter that admits peers,
//! and the decisions taken on each accepted connection.
use crate::encryption::{
    decrypt_message, decryption_of, is_key_pair, is_package_of, public_key_of, DecryptError,
    SecretKey,
};
use crate::message::{be_u32, frame_length, unix_millis_now, Message, FRAME_HEADER_BYTES};
use vstd::utf8::encode_utf8;
use std::collections::HashMap;
use vstd::prelude::*;

verus! {

broadcast use vstd::std_specs::hash::group_hash_axioms;

/// A peer's network address: an IPv6 address (an IPv4 peer in its
/// IPv4-mapped form) and a port.
#[derive(Debug, Clone, Copy, PartialEq, Eq, Structural)]
pub struct PeerAddr {
    pub ip: u128,
    pub port: u16,
}

/// One peer's counter: requests admitted in the current window, and the
/// instant (milliseconds since the Unix epoch) at which the window began.
#[derive(Debug, Clone, Copy, PartialEq, Eq, Structural)]
pub struct Window {
    pub count: usize,
    pub start: i64,
}

/// The window in force at `now`: a peer met for the first time, or whose
/// window is older than `time_frame`, starts a new one with a count of zero.
pub open spec fn refreshed(current: Option<Window>, now: i64, time_frame: u64) -> Window {
    match current {
        Some(w) => if now - w.start > time_frame {
            Window { count: 0, start: now }
        } else {
            w
        },
        None => Window { count: 0, start: now },
    }
}

/// Whether a request at `now` is admitted: only a count above the limit refuses.
pub open spec fn admitted(
    current: Option<Window>,
    now: i64,
    time_frame: u64,
    request_limit: usize,
) -> bool {
    refreshed(current, now, time_frame).count <= request_limit
}

/// The peer's window after a request at `now`: an admitted request is counted,
/// a refused one is not.
pub open spec fn window_after(
    current: Option<Window>,
    now: i64,
    time_frame: u64,
    request_limit: usize,
) -> Window {
    let w = refreshed(current, now, time_frame);
    if w.count <= request_limit {
        Window { count: (w.count + 1) as usize, start: w.start }
    } else {
        w
    }
}

/// The answers that one peer gets for requests at `times`, in order, starting
/// from the window `current`.
pub open spec fn answers(
    current: Option<Window>,
    times: Seq<i64>,
    time_frame: u64,
    request_limit: usize,
) -> Seq<bool>
    decreases times.len(),
{
    if times.len() == 0 {
        Seq::empty()
    } else {
        seq![admitted(current, times[0], time_frame, request_limit)] + answers(
            Some(window_after(current, times[0], time_frame, request_limit)),
            times.drop_first(),
            time_frame,
            request_limit,
        )
    }
}

/// Whether `w` is over at `now`: a window older than `time_frame`.
pub open spec fn expired(w: Window, now: i64, time_frame: u64) -> bool {
    now - w.start > time_frame
}

proof fn lemma_answers_within_window(
    w: Window,
    times: Seq<i64>,
    time_frame: u64,
    request_limit: usize,
)
    requires
        request_limit < usize::MAX,
        w.count <= request_limit + 1,
        forall|k: int| 0 <= k < times.len() ==> #[trigger] times[k] - w.start <= time_frame,
    ensures
        answers(Some(w), times, time_frame, request_limit) =~= Seq::new(
            times.len(),
            |k: int| w.count + k <= request_limit,
        ),
    decreases times.len(),
{
    if times.len() > 0 {
        let next = window_after(Some(w), times[0], time_frame, request_limit);
        let rest = times.drop_first();
        assert forall|k: int| 0 <= k < rest.len() implies #[trigger] rest[k] - next.start
            <= time_frame by {
            assert(rest[k] == times[k + 1]);
        }
        lemma_answers_within_window(next, rest, time_frame, request_limit);
    }
}

/// Within one window, a peer's first `request_limit + 1` requests are
/// admitted and the one after them is refused.
pub proof fn lemma_window_boundary(times: Seq<i64>, time_frame: u64, request_limit: usize)
    requires
        request_limit < usize::MAX,
        times.len() == request_limit + 2,
        forall|k: int| 0 <= k < times.len() ==> #[trigger] times[k] - times[0] <= time_frame,
    ensures
        answers(None, times, time_frame, request_limit) == Seq::new(
            times.len(),
            |k: int| k <= request_limit,
        ),
{
    let first = window_after(None, times[0], time_frame, request_limit);
    let rest = times.drop_first();
    assert forall|k: int| 0 <= k < rest.len() implies #[trigger] rest[k] - first.start
        <= time_frame by {
        assert(rest[k] == times[k + 1]);
    }
    lemma_answers_within_window(first, rest, time_frame, request_limit);
    assert(answers(None, times, time_frame, request_limit) =~= Seq::new(
        times.len(),
        |k: int| k <= request_limit,
    ));
}

/// Once a peer's window is older than `time_frame`, its count starts afresh
/// and the request is admitted.
pub proof fn lemma_window_resets(w: Window, now: i64, time_frame: u64, request_limit: usize)
    requires
        expired(w, now, time_frame),
    ensures
        admitted(Some(w), now, time_frame, request_limit),
        window_after(Some(w), now, time_frame, request_limit) == (Window { count: 1, start: now }),
{
}

/// A window that is over at `now` is answered at any later instant exactly as
/// if the peer had no record, so dropping it changes no answer of the limiter.
pub proof fn lemma_expired_is_absent(
    w: Window,
    now: i64,
    later: i64,
    time_frame: u64,
    request_limit: usize,
)
    requires
        expired(w, now, time_frame),
        now <= later,
    ensures
        admitted(Some(w), later, time_frame, request_limit) == admitted(
            None,
            later,
            time_frame,
            request_limit,
        ),
        window_after(Some(w), later, time_frame, request_limit) == window_after(
            None,
            later,
            time_frame,
            request_limit,
        ),
{
}

/// The window recorded for `addr`, if any.
pub open spec fn lookup(windows: Map<PeerAddr, Window>, addr: PeerAddr) -> Option<Window> {
    if windows.contains_key(addr) {
        Some(windows[addr])
    } else {
        None
    }
}

/// The windows held in a map from IP address to a map from port to window.
pub open spec fn windows_of(requests: Map<u128, HashMap<u16, Window>>) -> Map<PeerAddr, Window> {
    Map::new(
        |a: PeerAddr| requests.contains_key(a.ip) && requests[a.ip]@.contains_key(a.port),
        |a: PeerAddr| requests[a.ip]@[a.port],
    )
}

/// Fixed-window admission control per peer address.
pub struct RateLimiter {
    requests: HashMap<u128, HashMap<u16, Window>>,
    time_frame: u64,
    request_limit: usize,
}

impl View for RateLimiter {
    type V = Map<PeerAddr, Window>;

    closed spec fn view(&self) -> Map<PeerAddr, Window> {
        windows_of(self.requests@)
    }
}

/// The windows of `ports` that are not over at `now`.
fn unexpired_ports(ports: &HashMap<u16, Window>, now: i64, time_frame: u64) -> (r: HashMap<
    u16,
    Window,
>)
    ensures
        forall|p: u16|
            ports@.contains_key(p) && !expired(ports@[p], now, time_frame) ==> #[trigger] r@.contains_key(p),
        forall|p: u16| #[trigger]
            r@.contains_key(p) ==> ports@.contains_key(p) && !expired(ports@[p], now, time_frame)
                && r@[p] == ports@[p],
{
    let mut r: HashMap<u16, Window> = HashMap::new();
    for port in it: ports.keys()
        invariant
            it.seq().unref().to_set() == ports@.dom(),
            forall|p: u16| #[trigger]
                r@.contains_key(p) ==> ports@.contains_key(p) && !expired(
                    ports@[p],
                    now,
                    time_frame,
                ) && r@[p] == ports@[p],
            forall|j: int|
                0 <= j < it.index() && ports@.contains_key(*it.seq()[j]) && !expired(
                    ports@[*it.seq()[j]],
                    now,
                    time_frame,
                ) ==> r@.contains_key(*#[trigger] it.seq()[j]),
        ensures
            forall|p: u16|
                ports@.contains_key(p) && !expired(ports@[p], now, time_frame) ==> #[trigger] r@.contains_key(p),
            forall|p: u16| #[trigger]
                r@.contains_key(p) ==> ports@.contains_key(p) && !expired(
                    ports@[p],
                    now,
                    time_frame,
                ) && r@[p] == ports@[p],
    {
        match ports.get(port) {
            Some(w) => {
                if !((now as i128) - (w.start as i128) > time_frame as i128) {
                    r.insert(*port, *w);
                }
            },
            None => {},
        }
    }
    r
}

impl RateLimiter {
    /// The length of a window, in milliseconds.
    pub closed spec fn spec_time_frame(&self) -> u64 {
        self.time_frame
    }

    /// The largest count at which a request is still admitted.
    pub closed spec fn spec_request_limit(&self) -> usize {
        self.request_limit
    }

    /// No count passes one above the limit.
    pub closed spec fn well_formed(&self) -> bool {
        &&& self.request_limit < usize::MAX
        &&& forall|a: PeerAddr| #[trigger]
            self@.contains_key(a) ==> self@[a].count <= self.request_limit + 1
    }

    /// A limiter that admits, per peer, the first `request_limit + 1` requests
    /// of each window of `time_frame` milliseconds.
    pub fn new(time_frame: u64, request_limit: usize) -> (r: Self)
        requires
            request_limit < usize::MAX,
        ensures
            r.well_formed(),
            r@ == Map::<PeerAddr, Window>::empty(),
            r.spec_time_frame() == time_frame,
            r.spec_request_limit() == request_limit,
    {
        let r = RateLimiter { requests: HashMap::new(), time_frame, request_limit };
        assert(r@ =~= Map::<PeerAddr, Window>::empty());
        r
    }

    /// Consults the limiter for a request from `addr` at `now` (milliseconds
    /// since the Unix epoch), and records it.
    pub fn check_at(&mut self, addr: PeerAddr, now: i64) -> (r: bool)
        requires
            old(self).well_formed(),
        ensures
            final(self).well_formed(),
            r == admitted(
                lookup(old(self)@, addr),
                now,
                old(self).spec_time_frame(),
                old(self).spec_request_limit(),
            ),
            final(self)@ == old(self)@.insert(
                addr,
                window_after(
                    lookup(old(self)@, addr),
                    now,
                    old(self).spec_time_frame(),
                    old(self).spec_request_limit(),
                ),
            ),
            final(self).spec_time_frame() == old(self).spec_time_frame(),
            final(self).spec_request_limit() == old(self).spec_request_limit(),
    {
        let ghost before = self@;
        let mut ports: HashMap<u16, Window> = match self.requests.get(&addr.ip) {
            Some(m) => m.clone(),
            None => HashMap::new(),
        };
        let current: Option<Window> = match ports.get(&addr.port) {
            Some(w) => Some(*w),
            None => None,
        };
        assert(current == lookup(before, addr));
        let fresh = match current {
            Some(w) => if (now as i128) - (w.start as i128) > self.time_frame as i128 {
                Window { count: 0, start: now }
            } else {
                w
            },
            None => Window { count: 0, start: now },
        };
        let accepted = fresh.count <= self.request_limit;
        let next = if accepted {
            Window { count: fresh.count + 1, start: fresh.start }
        } else {
            fresh
        };
        ports.insert(addr.port, next);
        self.requests.insert(addr.ip, ports);
        assert(self@ =~= before.insert(addr, next));
        accepted
    }

    /// Drops the record of every peer whose window is over at `now`.
    pub fn evict_expired(&mut self, now: i64)
        requires
            old(self).well_formed(),
        ensures
            final(self).well_formed(),
            forall|a: PeerAddr| #[trigger]
                final(self)@.contains_key(a) <==> old(self)@.contains_key(a) && !expired(
                    old(self)@[a],
                    now,
                    old(self).spec_time_frame(),
                ),
            forall|a: PeerAddr| #[trigger]
                final(self)@.contains_key(a) ==> final(self)@[a] == old(self)@[a],
            final(self).spec_time_frame() == old(self).spec_time_frame(),
            final(self).spec_request_limit() == old(self).spec_request_limit(),
    {
        let ghost before = self@;
        let time_frame = self.time_frame;
        let mut kept: HashMap<u128, HashMap<u16, Window>> = HashMap::new();
        for ip in it: self.requests.keys()
            invariant
                before == windows_of(self.requests@),
                time_frame == self.time_frame,
                it.seq().unref().to_set() == self.requests@.dom(),
                it.seq().no_duplicates(),
                forall|k: u128| #[trigger]
                    kept@.contains_key(k) ==> exists|j: int|
                        0 <= j < it.index() && *it.seq()[j] == k,
                forall|a: PeerAddr| #[trigger]
                    windows_of(kept@).contains_key(a) ==> before.contains_key(a) && !expired(
                        before[a],
                        now,
                        time_frame,
                    ) && windows_of(kept@)[a] == before[a],
                forall|j: int, port: u16|
                    0 <= j < it.index() && before.contains_key(PeerAddr { ip: *it.seq()[j], port })
                        && !expired(before[PeerAddr { ip: *it.seq()[j], port }], now, time_frame)
                        ==> #[trigger] windows_of(kept@).contains_key(PeerAddr { ip: *it.seq()[j], port }),
            ensures
                forall|a: PeerAddr|
                    before.contains_key(a) && !expired(before[a], now, time_frame) ==> #[trigger] windows_of(kept@).contains_key(a),
                forall|a: PeerAddr| #[trigger]
                    windows_of(kept@).contains_key(a) ==> before.contains_key(a) && !expired(
                        before[a],
                        now,
                        time_frame,
                    ) && windows_of(kept@)[a] == before[a],
        {
            let ghost j0 = it.index();
            let ghost kept_before = kept@;
            proof {
                assert(it.seq()[j0] == ip);
                assert forall|j: int| 0 <= j < j0 implies *it.seq()[j] != *ip by {
                    assert(it.seq()[j] != it.seq()[j0]);
                }
            }
            match self.requests.get(ip) {
                Some(ports) => {
                    let fresh = unexpired_ports(ports, now, time_frame);
                    if fresh.len() != 0 {
                        kept.insert(*ip, fresh);
                    }
                    proof {
                        assert(!kept_before.contains_key(*ip));
                        assert forall|a: PeerAddr| #[trigger]
                            windows_of(kept@).contains_key(a) implies before.contains_key(a)
                            && !expired(before[a], now, time_frame) && windows_of(kept@)[a]
                            == before[a] by {
                            if a.ip != *ip {
                                assert(windows_of(kept_before).contains_key(a));
                            }
                        }
                        assert forall|port: u16|
                            before.contains_key(PeerAddr { ip: *ip, port }) && !expired(
                                before[PeerAddr { ip: *ip, port }],
                                now,
                                time_frame,
                            ) implies #[trigger] windows_of(kept@).contains_key(
                            PeerAddr { ip: *ip, port },
                        ) by {
                            assert(fresh@.contains_key(port));
                            assert(fresh@.dom().contains(port));
                        }
                        assert forall|j: int, port: u16|
                            0 <= j < j0 && windows_of(kept_before).contains_key(
                                PeerAddr { ip: *it.seq()[j], port },
                            ) implies #[trigger] windows_of(kept@).contains_key(
                            PeerAddr { ip: *it.seq()[j], port },
                        ) by {
                            assert(*it.seq()[j] != *ip);
                        }
                    }
                },
                None => {
                    proof {
                        assert forall|port: u16|
                            !before.contains_key(PeerAddr { ip: *ip, port }) by {}
                    }
                },
            }
        }
        self.requests = kept;
    }

    /// Consults the limiter for a request from `addr` now; `None`, with
    /// nothing recorded, when the system clock reads before the Unix epoch.
    pub fn check(&mut self, addr: PeerAddr) -> (r: Option<bool>)
        requires
            old(self).well_formed(),
        ensures
            final(self).well_formed(),
            r is None ==> *final(self) == *old(self),
            r matches Some(answer) ==> exists|now: i64|
                now >= 0 && answer == admitted(
                    lookup(old(self)@, addr),
                    now,
                    old(self).spec_time_frame(),
                    old(self).spec_request_limit(),
                ) && final(self)@ == old(self)@.insert(
                    addr,
                    window_after(
                        lookup(old(self)@, addr),
                        now,
                        old(self).spec_time_frame(),
                        old(self).spec_request_limit(),
                    ),
                ),
            final(self).spec_time_frame() == old(self).spec_time_frame(),
            final(self).spec_request_limit() == old(self).spec_request_limit(),
    {
        match unix_millis_now() {
            Some(now) => Some(self.check_at(addr, now)),
            None => None,
        }
    }
}

/// Why a connection is closed without an acknowledgment.
#[derive(Debug, Clone, Copy, PartialEq, Eq, Structural)]
pub enum CloseReason {
    /// The limiter refused the peer.
    RateLimited,
    /// The peer closed the connection before sending anything.
    PeerClosed,
    /// The frame header is truncated.
    BadFrame,
    /// The envelope could not be parsed.
    MalformedEnvelope,
    /// The envelope's content did not decrypt.
    Undecryptable(DecryptError),
}

/// What the connection handler does next. One connection carries one
/// envelope: accepted, rate-limited, header read, envelope read, then either
/// delivered and acknowledged, or closed without a response.
#[derive(Debug, Clone)]
pub enum ConnectionStep {
    /// Read the frame header.
    ReadHeader,
    /// Read exactly this many bytes of envelope.
    ReadEnvelope(u32),
    /// Hand this plaintext to the application, acknowledge, and close.
    Deliver(String),
    /// Close without a response.
    Close(CloseReason),
}

/// The first decision on an accepted connection: the limiter is consulted for
/// the peer before anything is read.
pub fn on_accept(limiter: &mut RateLimiter, peer: PeerAddr, now: i64) -> (r: ConnectionStep)
    requires
        old(limiter).well_formed(),
    ensures
        final(limiter).well_formed(),
        final(limiter)@ == old(limiter)@.insert(
            peer,
            window_after(
                lookup(old(limiter)@, peer),
                now,
                old(limiter).spec_time_frame(),
                old(limiter).spec_request_limit(),
            ),
        ),
        final(limiter).spec_time_frame() == old(limiter).spec_time_frame(),
        final(limiter).spec_request_limit() == old(limiter).spec_request_limit(),
        if admitted(
            lookup(old(limiter)@, peer),
            now,
            old(limiter).spec_time_frame(),
            old(limiter).spec_request_limit(),
        ) {
            r is ReadHeader
        } else {
            r matches ConnectionStep::Close(reason) && reason == CloseReason::RateLimited
        },
{
    if limiter.check_at(peer, now) {
        ConnectionStep::ReadHeader
    } else {
        ConnectionStep::Close(CloseReason::RateLimited)
    }
}

/// The decision once the header has been read: nothing read is a graceful
/// close by the peer; a valid header says how much envelope to read.
pub fn on_header(header: &[u8]) -> (r: ConnectionStep)
    ensures
        header@.len() == 0 ==> (r matches ConnectionStep::Close(reason) && reason
            == CloseReason::PeerClosed),
        header@.len() != 0 && header@.len() != FRAME_HEADER_BYTES ==> (r matches ConnectionStep::Close(
            reason,
        ) && reason == CloseReason::BadFrame),
        header@.len() == FRAME_HEADER_BYTES ==> (r matches ConnectionStep::ReadEnvelope(n) && n
            == be_u32(header@)),
{
    if header.len() == 0 {
        return ConnectionStep::Close(CloseReason::PeerClosed);
    }
    match frame_length(header) {
        Some(n) => ConnectionStep::ReadEnvelope(n),
        None => ConnectionStep::Close(CloseReason::BadFrame),
    }
}

/// The decision once the envelope has been read and parsed (`None` when it
/// did not parse): its content is decrypted with the server's secret key and
/// the sender's public key that the envelope carries.
pub fn on_envelope(envelope: Option<&Message>, server_secret_key: &SecretKey) -> (r: ConnectionStep)
    ensures
        match envelope {
            None => r matches ConnectionStep::Close(reason) && reason
                == CloseReason::MalformedEnvelope,
            Some(msg) => match decryption_of(msg.content@, msg.public_key@, server_secret_key@) {
                Ok(text) => r matches ConnectionStep::Deliver(plain) && plain@ == text,
                Err(e) => r matches ConnectionStep::Close(reason) && reason
                    == CloseReason::Undecryptable(e),
            },
        },
        forall|text: Seq<char>, sender_secret: Seq<u8>|
            envelope is Some && is_key_pair(envelope.unwrap().public_key@, sender_secret)
                && #[trigger] is_package_of(
                envelope.unwrap().content@,
                encode_utf8(text),
                public_key_of(server_secret_key@),
                sender_secret,
            ) ==> (r matches ConnectionStep::Deliver(plain) && plain@ == text),
{
    match envelope {
        None => ConnectionStep::Close(CloseReason::MalformedEnvelope),
        Some(msg) => match decrypt_message(msg.content.as_slice(), &msg.public_key, server_secret_key) {
            Ok(text) => ConnectionStep::Deliver(text),
            Err(e) => ConnectionStep::Close(CloseReason::Undecryptable(e)),
        },
    }
}

} // verus!
