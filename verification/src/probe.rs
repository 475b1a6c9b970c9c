//! External-address probe: what to send, how long to wait, which datagram to
//! believe.
//!
//! The socket belongs to the caller. [`Probe`] tells it what to do next and
//! is told what happened, so the same rules serve a standalone socket and one
//! that is shared with other traffic.

use vstd::prelude::*;
use vstd::string::StringExecFns;

use crate::addr::{SocketAddr, SocketAddrView};
use crate::stun::{
    encode_binding_request, parse_authenticated_error, parse_binding_response, ResponseError,
    ResponseErrorView, StunError, StunErrorView, TransactionId,
};
use crate::stun_laws::law_rejection_agreement;
use crate::text::{join3, push_decimal};
use crate::time::{Duration, Timestamp};

verus! {

/// Probe tuning knobs.
#[derive(Debug, Clone, Copy, PartialEq, Eq, Structural)]
pub struct ProbeConfig {
    /// Per-attempt wait for *any* matching response datagram.
    pub attempt_timeout: Duration,
    /// Attempts per server; binding probes are cheap, so a small fixed count
    /// is fine.
    pub attempts: u32,
}

impl Default for ProbeConfig {
    fn default() -> (res: Self)
        ensures
            res == (ProbeConfig {
                attempt_timeout: Duration { secs: 2, nanos: 0 },
                attempts: 3,
            }),
    {
        ProbeConfig { attempt_timeout: Duration::from_secs(2), attempts: 3 }
    }
}

/// One successful external-address observation.
#[derive(Debug, Clone, Copy)]
pub struct Observation {
    /// Discovery method label.
    pub method: &'static str,
    /// Server the probe was sent to.
    pub server: SocketAddr,
    /// Server-reflexive address: our external address as `server` sees it.
    pub observed_addr: SocketAddr,
    /// Round-trip time of the successful exchange, from the first send.
    pub rtt: Duration,
    /// When the response arrived.
    pub observed_at: Timestamp,
}

/// Why a probe failed.
#[derive(Debug, Clone)]
pub enum ProbeError {
    /// The server explicitly refused our request.
    Rejected(StunError),
    /// Receiving failed, for this reason.
    RecvFailed(String),
    /// Datagrams arrived in the last window, but none matched; the last one
    /// failed like this.
    NoneMatched(ResponseError),
    /// Nothing arrived in the last window.
    NoResponse,
    /// No attempt was allowed.
    Failed,
}

/// A [`ProbeError`] as plain values.
pub enum ProbeErrorView {
    Rejected(StunErrorView),
    RecvFailed(Seq<char>),
    NoneMatched(ResponseErrorView),
    NoResponse,
    Failed,
}

impl View for ProbeError {
    type V = ProbeErrorView;

    open spec fn view(&self) -> ProbeErrorView {
        match self {
            ProbeError::Rejected(e) => ProbeErrorView::Rejected(e@),
            ProbeError::RecvFailed(s) => ProbeErrorView::RecvFailed(s@),
            ProbeError::NoneMatched(e) => ProbeErrorView::NoneMatched(e@),
            ProbeError::NoResponse => ProbeErrorView::NoResponse,
            ProbeError::Failed => ProbeErrorView::Failed,
        }
    }
}

impl ProbeErrorView {
    /// The diagnostic, causes included.
    pub open spec fn text(self) -> Seq<char> {
        match self {
            ProbeErrorView::Rejected(e) => "STUN server rejected probe: "@ + crate::text::decimal(
                e.code as nat,
            ) + " "@ + e.reason,
            ProbeErrorView::RecvFailed(cause) => "recv failed: "@ + cause,
            ProbeErrorView::NoneMatched(e) => "datagrams arrived but none matched: "@ + e.text(),
            ProbeErrorView::NoResponse => "no response within attempt window"@,
            ProbeErrorView::Failed => "probe failed"@,
        }
    }
}

impl ProbeError {
    /// The diagnostic, causes included.
    pub fn to_string(&self) -> (res: String)
        ensures
            res@ == self@.text(),
    {
        match self {
            ProbeError::Rejected(e) => {
                let mut out = "STUN server rejected probe: ".to_owned();
                push_decimal(&mut out, e.code as u64);
                out.append(" ");
                out.append(e.reason.as_str());
                out
            },
            ProbeError::RecvFailed(cause) => crate::text::join2("recv failed: ", cause.as_str()),
            ProbeError::NoneMatched(e) => {
                let cause = e.to_string();
                crate::text::join2("datagrams arrived but none matched: ", cause.as_str())
            },
            ProbeError::NoResponse => "no response within attempt window".to_owned(),
            ProbeError::Failed => "probe failed".to_owned(),
        }
    }
}

/// What the owner of the socket does next.
#[derive(Debug, Clone)]
pub enum ProbeAction {
    /// Sleep this long, send the request, open a new attempt window.
    Send(Duration),
    /// Keep receiving until the window closes.
    Wait,
    /// The probe succeeded with this external address.
    Observed(SocketAddr),
    /// The probe failed.
    Fail(ProbeError),
}

/// A [`ProbeAction`] as plain values.
pub enum ProbeActionView {
    Send(Duration),
    Wait,
    Observed(SocketAddrView),
    Fail(ProbeErrorView),
}

impl View for ProbeAction {
    type V = ProbeActionView;

    open spec fn view(&self) -> ProbeActionView {
        match self {
            ProbeAction::Send(d) => ProbeActionView::Send(*d),
            ProbeAction::Wait => ProbeActionView::Wait,
            ProbeAction::Observed(a) => ProbeActionView::Observed(a@),
            ProbeAction::Fail(e) => ProbeActionView::Fail(e@),
        }
    }
}

/// A probe under way.
#[derive(Debug, Clone)]
pub struct Probe {
    /// Server under probe.
    server: SocketAddr,
    /// Shared by every attempt, so a late response to an earlier attempt
    /// still counts.
    txn: TransactionId,
    /// Attempts allowed.
    attempts: u32,
    /// The current attempt, counted from zero.
    attempt: u32,
    /// How the last non-matching datagram of this window failed to parse;
    /// preferred over a bare timeout, so silent servers and wrong-traffic
    /// servers can be told apart.
    diag: Option<ResponseError>,
}

/// A [`Probe`] as plain values.
#[verifier::ext_equal]
pub struct ProbeView {
    pub server: SocketAddrView,
    pub txn: Seq<u8>,
    pub attempts: u32,
    pub attempt: u32,
    pub diag: Option<ResponseErrorView>,
}

impl View for Probe {
    type V = ProbeView;

    closed spec fn view(&self) -> ProbeView {
        ProbeView {
            server: self.server@,
            txn: self.txn@,
            attempts: self.attempts,
            attempt: self.attempt,
            diag: match self.diag {
                Some(e) => Some(e@),
                None => None,
            },
        }
    }
}

/// What can happen while a window is open.
pub enum ProbeEvent {
    /// A datagram arrived.
    Datagram { from: SocketAddrView, data: Seq<u8> },
    /// The window closed.
    WindowClosed,
    /// Receiving failed, for this reason.
    RecvFailed(Seq<char>),
}

impl ProbeView {
    /// The attempt ended like this: back off and try again, or give up.
    pub open spec fn retry(self, error: ProbeErrorView) -> (ProbeView, ProbeActionView) {
        if self.attempt + 1 < self.attempts {
            (
                ProbeView { attempt: (self.attempt + 1) as u32, diag: None, ..self },
                ProbeActionView::Send(Duration::of_millis((200 * (self.attempt + 1)) as u64)),
            )
        } else {
            (ProbeView { diag: None, ..self }, ProbeActionView::Fail(error))
        }
    }

    /// One event moves the probe and decides what is done next.
    pub open spec fn step(self, event: ProbeEvent) -> (ProbeView, ProbeActionView) {
        match event {
            ProbeEvent::Datagram { from, data } => if from != self.server {
                (self, ProbeActionView::Wait)
            } else {
                match crate::stun::response_outcome(data, self.txn) {
                    Ok(addr) => (self, ProbeActionView::Observed(addr)),
                    Err(ResponseErrorView::Server(e)) => (
                        self,
                        ProbeActionView::Fail(ProbeErrorView::Rejected(e)),
                    ),
                    Err(e) => (ProbeView { diag: Some(e), ..self }, ProbeActionView::Wait),
                }
            },
            ProbeEvent::WindowClosed => self.retry(
                match self.diag {
                    Some(e) => ProbeErrorView::NoneMatched(e),
                    None => ProbeErrorView::NoResponse,
                },
            ),
            ProbeEvent::RecvFailed(cause) => self.retry(ProbeErrorView::RecvFailed(cause)),
        }
    }
}

impl Probe {
    /// Begin a probe. With no attempt allowed it fails at once.
    pub fn start(server: SocketAddr, txn: TransactionId, config: &ProbeConfig) -> (res: (
        Self,
        ProbeAction,
    ))
        ensures
            res.0@ == (ProbeView {
                server: server@,
                txn: txn@,
                attempts: config.attempts,
                attempt: 0,
                diag: None,
            }),
            res.1@ == (if config.attempts > 0 {
                ProbeActionView::Send(Duration { secs: 0, nanos: 0 })
            } else {
                ProbeActionView::Fail(ProbeErrorView::Failed)
            }),
    {
        let probe = Probe { server, txn, attempts: config.attempts, attempt: 0, diag: None };
        let action = if config.attempts > 0 {
            ProbeAction::Send(Duration::from_millis(0))
        } else {
            ProbeAction::Fail(ProbeError::Failed)
        };
        (probe, action)
    }

    /// The datagram to send, the same in every attempt.
    pub fn request(&self) -> (res: Vec<u8>)
        ensures
            res@ == crate::stun::header_bytes(crate::stun::BINDING_REQUEST, 0, self@.txn),
    {
        encode_binding_request(&self.txn)
    }

    /// A datagram arrived in the open window.
    ///
    /// One that does not parse or carries another transaction id is ignored:
    /// on a shared socket that is how unrelated traffic and late responses
    /// get skipped. An authenticated error response is an explicit rejection
    /// and ends the probe.
    pub fn datagram(&mut self, from: &SocketAddr, data: &[u8]) -> (res: ProbeAction)
        ensures
            (final(self)@, res@) == old(self)@.step(
                ProbeEvent::Datagram { from: from@, data: data@ },
            ),
    {
        if *from != self.server {
            return ProbeAction::Wait;
        }
        match parse_binding_response(data, &self.txn) {
            Ok(response) => ProbeAction::Observed(response.xor_mapped_address),
            Err(parse_err) => {
                match parse_authenticated_error(data, &self.txn) {
                    Ok(e) => {
                        proof {
                            law_rejection_agreement(data@, self.txn@, e@);
                        }
                        ProbeAction::Fail(ProbeError::Rejected(e))
                    },
                    Err(_) => {
                        proof {
                            if let ResponseErrorView::Server(e) = parse_err@ {
                                law_rejection_agreement(data@, self.txn@, e);
                            }
                        }
                        self.diag = Some(parse_err);
                        ProbeAction::Wait
                    },
                }
            },
        }
    }

    /// The window closed without a matching response.
    pub fn window_closed(&mut self) -> (res: ProbeAction)
        ensures
            (final(self)@, res@) == old(self)@.step(ProbeEvent::WindowClosed),
    {
        let error = match self.diag.take() {
            Some(e) => ProbeError::NoneMatched(e),
            None => ProbeError::NoResponse,
        };
        self.retry(error)
    }

    /// Receiving failed in the open window.
    pub fn recv_failed(&mut self, cause: String) -> (res: ProbeAction)
        ensures
            (final(self)@, res@) == old(self)@.step(ProbeEvent::RecvFailed(cause@)),
    {
        self.retry(ProbeError::RecvFailed(cause))
    }

    /// The attempt ended like this: back off and try again, or give up.
    fn retry(&mut self, error: ProbeError) -> (res: ProbeAction)
        ensures
            (final(self)@, res@) == old(self)@.retry(error@),
    {
        self.diag = None;
        if self.attempt < self.attempts && self.attempts - self.attempt > 1 {
            self.attempt = self.attempt + 1;
            // Linear backoff keeps the worst case bounded while still riding
            // out single-packet loss.
            ProbeAction::Send(Duration::from_millis(200 * self.attempt as u64))
        } else {
            ProbeAction::Fail(error)
        }
    }

    /// Record the external address that the probe found.
    pub fn observation(&self, observed_addr: SocketAddr, rtt: Duration, at: Timestamp) -> (res:
        Observation)
        ensures
            res.method@ == "cloudflare-stun"@,
            res.server@ == self@.server,
            res.observed_addr == observed_addr,
            res.rtt == rtt,
            res.observed_at == at,
    {
        Observation {
            method: "cloudflare-stun",
            server: self.server,
            observed_addr,
            rtt,
            observed_at: at,
        }
    }
}

// ---------------------------------------------------------------------------
// Every address of a server
// ---------------------------------------------------------------------------

/// What to do for the next address of a server.
#[derive(Debug, Clone, Copy)]
pub enum SweepStep {
    /// Bind a socket of this family (`true` for IPv4).
    Bind(bool),
    /// Probe this address from the bound socket.
    Probe(SocketAddr),
    /// No address is left.
    Exhausted,
}

/// The addresses of one server, tried in order.
///
/// One socket serves one family and is replaced when the family of the next
/// address differs. Binding an IPv6 socket succeeds even on hosts without an
/// IPv6 route, so the IPv4 addresses are still tried, each family from its
/// own socket, after IPv6 proves unusable.
#[derive(Debug, Clone)]
pub struct Sweep {
    addrs: Vec<SocketAddr>,
    /// The address in turn.
    at: usize,
    /// Family of the bound socket.
    bound_v4: Option<bool>,
    /// Why the last address failed.
    last_err: Option<String>,
}

/// A [`Sweep`] as plain values.
#[verifier::ext_equal]
pub struct SweepView {
    pub addrs: Seq<SocketAddr>,
    pub at: nat,
    pub bound_v4: Option<bool>,
    pub last_err: Option<Seq<char>>,
}

impl View for Sweep {
    type V = SweepView;

    closed spec fn view(&self) -> SweepView {
        SweepView {
            addrs: self.addrs@,
            at: self.at as nat,
            bound_v4: self.bound_v4,
            last_err: match self.last_err {
                Some(e) => Some(e@),
                None => None,
            },
        }
    }
}

impl SweepView {
    /// What comes next.
    pub open spec fn next(self) -> SweepStep {
        if self.at >= self.addrs.len() {
            SweepStep::Exhausted
        } else if self.bound_v4 == Some(self.addrs[self.at as int] is V4) {
            SweepStep::Probe(self.addrs[self.at as int])
        } else {
            SweepStep::Bind(self.addrs[self.at as int] is V4)
        }
    }

    /// The sweep after the address in turn failed like this. Past the last
    /// address nothing is left to move on to.
    pub open spec fn failed(self, error: Seq<char>) -> SweepView {
        SweepView {
            at: if self.at < self.addrs.len() {
                self.at + 1
            } else {
                self.at
            },
            last_err: Some(error),
            ..self
        }
    }
}

impl Sweep {
    /// Start with the addresses that the name of a server resolved to.
    pub fn new(server: &str, addrs: Vec<SocketAddr>) -> (res: Result<Self, String>)
        ensures
            match res {
                Ok(sweep) => addrs@.len() > 0 && sweep@ == (SweepView {
                    addrs: addrs@,
                    at: 0,
                    bound_v4: None,
                    last_err: None,
                }),
                Err(e) => addrs@.len() == 0 && e@ == "no addresses for "@ + server@,
            },
    {
        if addrs.len() == 0 {
            return Err(crate::text::join2("no addresses for ", server));
        }
        Ok(Sweep { addrs, at: 0, bound_v4: None, last_err: None })
    }

    pub fn next(&self) -> (res: SweepStep)
        ensures
            res == self@.next(),
    {
        if self.at >= self.addrs.len() {
            return SweepStep::Exhausted;
        }
        let addr = self.addrs[self.at];
        let is_v4 = addr.is_ipv4();
        match self.bound_v4 {
            Some(bound) if bound == is_v4 => SweepStep::Probe(addr),
            _ => SweepStep::Bind(is_v4),
        }
    }

    /// The socket that was asked for is bound and replaces the last one.
    pub fn bound(&mut self, is_v4: bool)
        ensures
            final(self)@ == (SweepView { bound_v4: Some(is_v4), ..old(self)@ }),
    {
        self.bound_v4 = Some(is_v4);
    }

    /// Binding for this address or probing it failed: go on with the next.
    pub fn failed(&mut self, error: String)
        ensures
            final(self)@ == old(self)@.failed(error@),
    {
        if self.at < self.addrs.len() {
            assert(self.addrs.len() <= usize::MAX);
            self.at = self.at + 1;
        }
        self.last_err = Some(error);
    }

    /// Why the server could not be probed: the last failure, if there was one.
    pub fn failure(self) -> (res: String)
        ensures
            res@ == (match self@.last_err {
                Some(e) => e,
                None => "no usable address family"@,
            }),
    {
        match self.last_err {
            Some(e) => e,
            None => "no usable address family".to_owned(),
        }
    }
}

/// The report on one server that failed.
pub fn server_failure(server: &str, error: &str) -> (res: String)
    ensures
        res@ == server@ + ": "@ + error@,
{
    join3(server, ": ", error)
}

/// Reports one after another, separated by semicolons.
pub open spec fn joined(reports: Seq<String>) -> Seq<char>
    decreases reports.len(),
{
    if reports.len() == 0 {
        Seq::empty()
    } else if reports.len() == 1 {
        reports[0]@
    } else {
        joined(reports.drop_last()) + "; "@ + reports.last()@
    }
}

/// The verdict over all servers: fine when one probe succeeded, else the
/// reports of all failures.
pub fn verdict(any_ok: bool, failures: &Vec<String>) -> (res: Result<(), String>)
    ensures
        match res {
            Ok(_) => any_ok,
            Err(e) => !any_ok && e@ == "all probes failed; "@ + joined(failures@),
        },
{
    if any_ok {
        return Ok(());
    }
    let mut out = "all probes failed; ".to_owned();
    let mut i: usize = 0;
    while i < failures.len()
        invariant
            i <= failures@.len(),
            out@ == "all probes failed; "@ + joined(failures@.take(i as int)),
        decreases failures@.len() - i,
    {
        if i > 0 {
            out.append("; ");
        }
        out.append(failures[i].as_str());
        assert(failures@.take(i + 1).drop_last() =~= failures@.take(i as int));
        assert(out@ =~= "all probes failed; "@ + joined(failures@.take(i + 1)));
        i = i + 1;
    }
    assert(failures@.take(i as int) =~= failures@);
    Err(out)
}

// ---------------------------------------------------------------------------
// Laws
// ---------------------------------------------------------------------------

/// Traffic from anyone but the server is ignored.
pub proof fn law_foreign_sender_ignored(probe: ProbeView, from: SocketAddrView, data: Seq<u8>)
    requires
        from != probe.server,
    ensures
        probe.step(ProbeEvent::Datagram { from, data }) == (probe, ProbeActionView::Wait),
{
}

/// A datagram that answers another transaction neither ends the probe nor
/// its attempt.
pub proof fn law_stale_response_ignored(probe: ProbeView, from: SocketAddrView, data: Seq<u8>)
    requires
        data.len() < crate::stun::HEADER_LEN || crate::stun::txn_of(data) != probe.txn,
    ensures
        probe.step(ProbeEvent::Datagram { from, data }).1 == ProbeActionView::Wait,
        probe.step(ProbeEvent::Datagram { from, data }).0.attempt == probe.attempt,
{
    crate::stun_laws::law_foreign_transaction_rejected(data, probe.txn);
}

/// The probe succeeds only on a datagram from the server that answers our own
/// transaction, and with the address which that datagram reports.
pub proof fn law_only_authentic_success(
    probe: ProbeView,
    event: ProbeEvent,
    addr: SocketAddrView,
)
    requires
        probe.step(event).1 == ProbeActionView::Observed(addr),
    ensures
        event matches ProbeEvent::Datagram { from, data } && from == probe.server
            && crate::stun::txn_of(data) == probe.txn && crate::stun::response_outcome(
            data,
            probe.txn,
        ) == Ok::<SocketAddrView, ResponseErrorView>(addr),
{
}

/// What the server encodes for the address it saw, the probe reports.
pub proof fn law_probe_reports_observed_address(probe: ProbeView, octets: Seq<u8>, port: u16)
    requires
        probe.txn.len() == 12,
        octets.len() == 4 || octets.len() == 16,
    ensures
        probe.step(
            ProbeEvent::Datagram {
                from: probe.server,
                data: crate::stun::success_bytes(octets, port, probe.txn),
            },
        ).1 == ProbeActionView::Observed(crate::addr::plain_addr(octets, port)),
{
    crate::stun_laws::law_success_roundtrip(octets, port, probe.txn);
}

/// An error response of the server to our transaction ends the probe with its
/// code and reason.
pub proof fn law_rejection_ends_probe(probe: ProbeView, code: u16, reason: Seq<char>)
    requires
        probe.txn.len() == 12,
        code < 800,
        crate::stun_laws::reason_fits(reason),
    ensures
        probe.step(
            ProbeEvent::Datagram {
                from: probe.server,
                data: crate::stun::error_bytes(code, reason, probe.txn),
            },
        ).1 == ProbeActionView::Fail(
            ProbeErrorView::Rejected(
                StunErrorView { code, reason: crate::text::trimmed(reason) },
            ),
        ),
{
    crate::stun_laws::law_error_roundtrip(code, reason, probe.txn);
}

/// How many requests a run of events makes the probe send, after the first.
pub open spec fn resends(probe: ProbeView, events: Seq<ProbeEvent>) -> nat
    decreases events.len(),
{
    if events.len() == 0 {
        0
    } else {
        let (next, action) = probe.step(events[0]);
        match action {
            ProbeActionView::Send(_) => 1 + resends(next, events.skip(1)),
            ProbeActionView::Wait => resends(next, events.skip(1)),
            _ => 0,
        }
    }
}

/// Whatever happens, a probe never sends more requests than attempts allow.
pub proof fn law_sends_bounded(probe: ProbeView, events: Seq<ProbeEvent>)
    requires
        probe.attempt < probe.attempts,
    ensures
        1 + probe.attempt + resends(probe, events) <= probe.attempts,
    decreases events.len(),
{
    if events.len() > 0 {
        let (next, action) = probe.step(events[0]);
        match action {
            ProbeActionView::Send(_) => law_sends_bounded(next, events.skip(1)),
            ProbeActionView::Wait => law_sends_bounded(next, events.skip(1)),
            _ => {},
        }
    }
}

/// Every address of a server gets its turn: whatever socket is bound, the
/// address in turn is probed next, or after binding a socket of its family.
pub proof fn law_every_address_is_tried(sweep: SweepView)
    requires
        sweep.at < sweep.addrs.len(),
    ensures
        ({
            let addr = sweep.addrs[sweep.at as int];
            ||| sweep.next() == SweepStep::Probe(addr)
            ||| sweep.next() == SweepStep::Bind(addr is V4) && (SweepView {
                bound_v4: Some(addr is V4),
                ..sweep
            }).next() == SweepStep::Probe(addr)
        }),
{
}

/// A probe after so many windows closed in silence.
pub open spec fn after_silence(probe: ProbeView, windows: nat) -> (ProbeView, ProbeActionView)
    decreases windows,
{
    if windows == 0 {
        (probe, ProbeActionView::Wait)
    } else {
        after_silence(probe, (windows - 1) as nat).0.step(ProbeEvent::WindowClosed)
    }
}

/// A server that stays silent is tried in every attempt that is allowed, with
/// a pause that grows by 200 ms each time, and then the probe fails for want
/// of a response.
pub proof fn law_silent_server(probe: ProbeView, windows: nat)
    requires
        probe.attempt == 0,
        probe.diag is None,
        0 < windows <= probe.attempts,
    ensures
        after_silence(probe, windows).1 == (if windows < probe.attempts {
            ProbeActionView::Send(Duration::of_millis((200 * windows) as u64))
        } else {
            ProbeActionView::Fail(ProbeErrorView::NoResponse)
        }),
        windows < probe.attempts ==> after_silence(probe, windows).0 == (ProbeView {
            attempt: windows as u32,
            ..probe
        }),
    decreases windows,
{
    if windows > 1 {
        law_silent_server(probe, (windows - 1) as nat);
    } else {
        assert(after_silence(probe, 0).0 == probe);
    }
}

/// What becomes of a datagram, in every case: one from anyone but the server is
/// not looked at; an address for our own transaction is the answer; a rejection
/// of our own request ends the probe; anything else is noted, as the last of
/// its kind, and waited past. No datagram moves the probe to another attempt.
pub proof fn law_datagram_decides(probe: ProbeView, from: SocketAddrView, data: Seq<u8>)
    ensures
        ({
            let (after, action) = probe.step(ProbeEvent::Datagram { from, data });
            let said = crate::stun::response_outcome(data, probe.txn);
            &&& from != probe.server ==> after == probe && action == ProbeActionView::Wait
            &&& from == probe.server ==> (said matches Ok(addr) ==> after == probe && action
                == ProbeActionView::Observed(addr))
            &&& from == probe.server ==> (said matches Err(ResponseErrorView::Server(e)) ==> after
                == probe && action == ProbeActionView::Fail(ProbeErrorView::Rejected(e)))
            &&& from == probe.server ==> (said matches Err(e) ==> (!(e is Server) ==> action
                == ProbeActionView::Wait && after == (ProbeView { diag: Some(e), ..probe })))
        }),
{
}

/// What becomes of an attempt that ends without an answer, in every case: while
/// attempts are left the next one starts after as many times 200 ms as attempts
/// went before, with nothing noted yet; after the last one the probe fails for
/// what ended it.
pub proof fn law_attempt_ends(probe: ProbeView, cause: Seq<char>)
    ensures
        ({
            let (after, action) = probe.step(ProbeEvent::WindowClosed);
            &&& probe.attempt + 1 < probe.attempts ==> after == (ProbeView {
                attempt: (probe.attempt + 1) as u32,
                diag: None,
                ..probe
            }) && (action matches ProbeActionView::Send(pause) && pause.secs * 1_000_000_000
                + pause.nanos == (probe.attempt + 1) * 200_000_000 && pause.nanos < 1_000_000_000)
            &&& probe.attempt + 1 >= probe.attempts ==> after == (ProbeView {
                diag: None,
                ..probe
            })
            &&& probe.attempt + 1 >= probe.attempts && probe.diag is None ==> action
                == ProbeActionView::Fail(ProbeErrorView::NoResponse)
            &&& probe.attempt + 1 >= probe.attempts ==> (probe.diag matches Some(e) ==> action
                == ProbeActionView::Fail(ProbeErrorView::NoneMatched(e)))
        }),
        ({
            let (after, action) = probe.step(ProbeEvent::RecvFailed(cause));
            &&& after == probe.step(ProbeEvent::WindowClosed).0
            &&& probe.attempt + 1 < probe.attempts ==> action == probe.step(
                ProbeEvent::WindowClosed,
            ).1
            &&& probe.attempt + 1 >= probe.attempts ==> action == ProbeActionView::Fail(
                ProbeErrorView::RecvFailed(cause),
            )
        }),
{
    assert(200 * (probe.attempt + 1) <= u64::MAX);
}

/// What comes next for a server, in every case: the address in turn is probed
/// where the socket bound last is of its family, else a socket of its family
/// is bound; past the last address nothing is left. A failure moves on to the
/// next address and is remembered in place of the one before.
pub proof fn law_sweep_decides(sweep: SweepView, error: Seq<char>)
    ensures
        sweep.at >= sweep.addrs.len() ==> sweep.next() == SweepStep::Exhausted,
        sweep.at < sweep.addrs.len() ==> ({
            let addr = sweep.addrs[sweep.at as int];
            let v4 = addr is V4;
            &&& sweep.bound_v4 == Some(v4) ==> sweep.next() == SweepStep::Probe(addr)
            &&& sweep.bound_v4 != Some(v4) ==> sweep.next() == SweepStep::Bind(v4)
        }),
        sweep.failed(error).addrs == sweep.addrs,
        sweep.failed(error).bound_v4 == sweep.bound_v4,
        sweep.failed(error).last_err == Some(error),
        sweep.at < sweep.addrs.len() ==> sweep.failed(error).at == sweep.at + 1,
        sweep.at >= sweep.addrs.len() ==> sweep.failed(error).at == sweep.at,
{
}

/// Reports are joined by a semicolon and a space, in order.
pub proof fn law_reports_joined(reports: Seq<String>, report: String)
    ensures
        joined(Seq::empty()) == Seq::<char>::empty(),
        joined(seq![report]) == report@,
        reports.len() > 0 ==> joined(reports.push(report)) == joined(reports) + seq![';', ' ']
            + report@,
{
    reveal_strlit("; ");
    assert("; "@ =~= seq![';', ' ']);
    assert(reports.push(report).drop_last() =~= reports);
}

} // verus!
