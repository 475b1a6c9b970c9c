//! Direct media candidates: who may be dialed, where, and until when.

use vstd::prelude::*;

use crate::addr::SocketAddr;
use crate::text::{decimal_of, join2, join3};
use crate::time::{unix_millis, Duration};

verus! {

/// The public key that identifies an endpoint.
#[derive(Debug, Clone, Copy, Eq)]
pub struct EndpointId([u8; 32]);

impl View for EndpointId {
    type V = Seq<u8>;

    closed spec fn view(&self) -> Seq<u8> {
        self.0@
    }
}

impl PartialEq for EndpointId {
    fn eq(&self, other: &Self) -> (res: bool) {
        crate::wire::same_bytes(self.0.as_slice(), other.0.as_slice())
    }
}

impl vstd::std_specs::cmp::PartialEqSpecImpl for EndpointId {
    open spec fn obeys_eq_spec() -> bool {
        true
    }

    open spec fn eq_spec(&self, other: &Self) -> bool {
        self@ == other@
    }
}

/// Why a text is not an endpoint id.
#[derive(Debug, Clone, Copy, PartialEq, Eq, Structural)]
pub enum KeyError {
    FailedToDecodeHex,
    FailedToDecodeBase32,
    InvalidLength,
    InvalidKeyData,
}

impl KeyError {
    /// The diagnostic.
    pub open spec fn text(self) -> Seq<char> {
        match self {
            KeyError::FailedToDecodeHex => "failed to decode hex string"@,
            KeyError::FailedToDecodeBase32 => "failed to decode base32 string"@,
            KeyError::InvalidLength => "invalid length"@,
            KeyError::InvalidKeyData => "data is not a valid public key"@,
        }
    }

    pub fn to_string(&self) -> (res: String)
        ensures
            res@ == self.text(),
    {
        match self {
            KeyError::FailedToDecodeHex => "failed to decode hex string".to_owned(),
            KeyError::FailedToDecodeBase32 => "failed to decode base32 string".to_owned(),
            KeyError::InvalidLength => "invalid length".to_owned(),
            KeyError::InvalidKeyData => "data is not a valid public key".to_owned(),
        }
    }
}

/// The public key that a text spells, or why it spells none.
pub uninterp spec fn endpoint_id_of(text: Seq<char>) -> Result<Seq<u8>, KeyError>;

/// `<iroh::EndpointId as FromStr>::from_str` reads a public key in lower-case
/// hexadecimal or in base32; which texts spell a key on the curve depends on
/// the text alone and is named, not spelled out.
#[verifier::external_body]
fn parse_endpoint_id(s: &str) -> (res: Result<EndpointId, KeyError>)
    ensures
        match res {
            Ok(id) => endpoint_id_of(s@) == Ok::<Seq<u8>, KeyError>(id@),
            Err(e) => endpoint_id_of(s@) == Err::<Seq<u8>, KeyError>(e),
        },
{
    match s.parse::<iroh::EndpointId>() {
        Ok(id) => Ok(EndpointId(*id.as_bytes())),
        Err(iroh::KeyParsingError::FailedToDecodeHex { .. }) => Err(KeyError::FailedToDecodeHex),
        Err(iroh::KeyParsingError::FailedToDecodeBase32 { .. }) => {
            Err(KeyError::FailedToDecodeBase32)
        },
        Err(iroh::KeyParsingError::InvalidLength { .. }) => Err(KeyError::InvalidLength),
        Err(_) => Err(KeyError::InvalidKeyData),
    }
}

impl EndpointId {
    pub fn from_bytes(bytes: [u8; 32]) -> (res: Self)
        ensures
            res@ == bytes@,
    {
        EndpointId(bytes)
    }

    pub fn as_bytes(&self) -> (res: &[u8; 32])
        ensures
            res@ == self@,
    {
        &self.0
    }

    /// Read an endpoint id.
    pub fn parse(s: &str) -> (res: Result<Self, KeyError>)
        ensures
            match res {
                Ok(id) => endpoint_id_of(s@) == Ok::<Seq<u8>, KeyError>(id@),
                Err(e) => endpoint_id_of(s@) == Err::<Seq<u8>, KeyError>(e),
            },
    {
        parse_endpoint_id(s)
    }
}

/// Source of one direct candidate address.
#[derive(Debug, Clone, Copy, PartialEq, Eq, Structural)]
pub enum CandidateSource {
    Local,
    Ipv6Global,
    PortMapping,
    CloudflareStun,
    CloudflareHttp3,
    FlyIrohQad,
    Manual,
}

/// One direct candidate.
///
/// There is deliberately **no relay field**: a candidate can only ever carry
/// one direct IP address.
#[derive(Debug, Clone, Copy, PartialEq)]
pub struct DirectCandidate {
    pub endpoint_id: EndpointId,
    pub addr: SocketAddr,
    pub source: CandidateSource,
    pub observed_at_unix_ms: u64,
    pub expires_at_unix_ms: u64,
    pub network_epoch: u64,
}

/// A time to live in whole milliseconds, as a 64-bit count.
pub open spec fn ttl_millis(ttl: Duration) -> nat {
    ttl.millis() % 0x1_0000_0000_0000_0000
}

impl DirectCandidate {
    /// The candidate observed at `now_ms` and valid for `ttl`.
    pub open spec fn made(
        endpoint_id: EndpointId,
        addr: SocketAddr,
        source: CandidateSource,
        ttl: Duration,
        epoch: u64,
        now_ms: u64,
    ) -> DirectCandidate {
        DirectCandidate {
            endpoint_id,
            addr,
            source,
            observed_at_unix_ms: now_ms,
            expires_at_unix_ms: (now_ms + ttl_millis(ttl)) as u64,
            network_epoch: epoch,
        }
    }

    /// A candidate observed at `now_ms` and valid for `ttl`; none where the
    /// time of expiry does not fit in 64 bits.
    pub fn observed(
        endpoint_id: EndpointId,
        addr: SocketAddr,
        source: CandidateSource,
        ttl: Duration,
        epoch: u64,
        now_ms: u64,
    ) -> (res: Option<Self>)
        ensures
            res == (if now_ms + ttl_millis(ttl) <= u64::MAX {
                Some(DirectCandidate::made(endpoint_id, addr, source, ttl, epoch, now_ms))
            } else {
                None
            }),
    {
        let ttl_ms = ttl.as_millis_u64();
        if ttl_ms > u64::MAX - now_ms {
            return None;
        }
        Some(
            DirectCandidate {
                endpoint_id,
                addr,
                source,
                observed_at_unix_ms: now_ms,
                expires_at_unix_ms: now_ms + ttl_ms,
                network_epoch: epoch,
            },
        )
    }

    /// Build a fresh local candidate valid for `ttl` from now on; none where
    /// the time of expiry does not fit in 64 bits.
    pub fn local(endpoint_id: EndpointId, addr: SocketAddr, ttl: Duration, epoch: u64) -> (res:
        Option<Self>)
        ensures
            res matches Some(c) ==> c == DirectCandidate::made(
                endpoint_id,
                addr,
                CandidateSource::Local,
                ttl,
                epoch,
                c.observed_at_unix_ms,
            ) && c.observed_at_unix_ms + ttl_millis(ttl) <= u64::MAX,
            ttl_millis(ttl) == 0 ==> res is Some,
    {
        DirectCandidate::observed(
            endpoint_id,
            addr,
            CandidateSource::Local,
            ttl,
            epoch,
            unix_millis(),
        )
    }

    /// Build a candidate that the operator vouches for, valid for `ttl` from
    /// now on; none where the time of expiry does not fit in 64 bits.
    pub fn manual(endpoint_id: EndpointId, addr: SocketAddr, ttl: Duration, epoch: u64) -> (res:
        Option<Self>)
        ensures
            res matches Some(c) ==> c == DirectCandidate::made(
                endpoint_id,
                addr,
                CandidateSource::Manual,
                ttl,
                epoch,
                c.observed_at_unix_ms,
            ) && c.observed_at_unix_ms + ttl_millis(ttl) <= u64::MAX,
            ttl_millis(ttl) == 0 ==> res is Some,
    {
        DirectCandidate::observed(
            endpoint_id,
            addr,
            CandidateSource::Manual,
            ttl,
            epoch,
            unix_millis(),
        )
    }

    /// Whether the candidate has outlived its time.
    pub open spec fn expired(self, now_unix_ms: u64) -> bool {
        now_unix_ms >= self.expires_at_unix_ms
    }

    pub fn is_expired(&self, now_unix_ms: u64) -> (res: bool)
        ensures
            res == self.expired(now_unix_ms),
    {
        now_unix_ms >= self.expires_at_unix_ms
    }
}

/// Why a candidate must not be dialed.
#[derive(Debug, Clone, Copy, PartialEq, Eq, Structural)]
pub enum CandidateError {
    /// It expired at this time.
    Expired(u64),
    /// Its network epoch is not currently known.
    UnknownEpoch(u64),
}

impl CandidateError {
    /// The diagnostic.
    pub open spec fn text(self) -> Seq<char> {
        match self {
            CandidateError::Expired(at) => "candidate expired at "@ + crate::text::decimal(
                at as nat,
            ),
            CandidateError::UnknownEpoch(epoch) => "candidate network_epoch "@
                + crate::text::decimal(epoch as nat) + " is not currently known"@,
        }
    }

    pub fn to_string(&self) -> (res: String)
        ensures
            res@ == self.text(),
    {
        match self {
            CandidateError::Expired(at) => {
                let at = decimal_of(*at);
                join2("candidate expired at ", at.as_str())
            },
            CandidateError::UnknownEpoch(epoch) => {
                let epoch = decimal_of(*epoch);
                join3("candidate network_epoch ", epoch.as_str(), " is not currently known")
            },
        }
    }
}

/// Whether a candidate may be dialed at `now_ms`.
pub open spec fn validity(cand: DirectCandidate, known_epochs: Seq<u64>, now_ms: u64) -> Result<
    (),
    CandidateError,
> {
    if cand.expired(now_ms) {
        Err(CandidateError::Expired(cand.expires_at_unix_ms))
    } else if !known_epochs.contains(cand.network_epoch) {
        Err(CandidateError::UnknownEpoch(cand.network_epoch))
    } else {
        Ok(())
    }
}

/// Fail-closed candidate validation at time `now_ms`.
pub fn validate_candidate_at(cand: &DirectCandidate, known_epochs: &[u64], now_ms: u64) -> (res:
    Result<(), CandidateError>)
    ensures
        res == validity(*cand, known_epochs@, now_ms),
{
    if cand.is_expired(now_ms) {
        return Err(CandidateError::Expired(cand.expires_at_unix_ms));
    }
    let mut i: usize = 0;
    while i < known_epochs.len()
        invariant
            i <= known_epochs@.len(),
            !cand.expired(now_ms),
            forall|k: int| 0 <= k < i ==> known_epochs@[k] != cand.network_epoch,
        decreases known_epochs@.len() - i,
    {
        if known_epochs[i] == cand.network_epoch {
            assert(known_epochs@.contains(cand.network_epoch));
            return Ok(());
        }
        i = i + 1;
    }
    Err(CandidateError::UnknownEpoch(cand.network_epoch))
}

/// Fail-closed candidate validation before it may be dialed.
///
/// Rejects expired candidates and candidates from an unknown network epoch
/// (stale after an interface change). The no-relay rule needs no check here:
/// [`DirectCandidate`] cannot represent one. The clock decides about expiry,
/// except for a candidate that every reading finds expired.
pub fn validate_candidate(cand: &DirectCandidate, known_epochs: &[u64]) -> (res: Result<
    (),
    CandidateError,
>)
    ensures
        exists|now_ms: u64| res == #[trigger] validity(*cand, known_epochs@, now_ms),
        res is Ok ==> known_epochs@.contains(cand.network_epoch),
        cand.expires_at_unix_ms == 0 ==> res == Err::<(), CandidateError>(
            CandidateError::Expired(0),
        ),
{
    validate_candidate_at(cand, known_epochs, unix_millis())
}

// ---------------------------------------------------------------------------
// Choosing whom to dial
// ---------------------------------------------------------------------------

/// Where to dial the media endpoint of a peer.
#[derive(Debug, Clone)]
pub struct DialTarget {
    pub endpoint_id: EndpointId,
    /// The first usable candidate.
    pub first: DirectCandidate,
    /// Every usable address, in the order advertised.
    pub addrs: Vec<SocketAddr>,
}

/// Why none of the advertised candidates is dialed.
#[derive(Debug, Clone, Copy, PartialEq, Eq, Structural)]
pub enum DialError {
    NoCandidates,
    NoKnownEpoch,
    Rejected(CandidateError),
    IdsDisagree,
}

impl DialError {
    /// The diagnostic, causes included.
    pub open spec fn text(self) -> Seq<char> {
        match self {
            DialError::NoCandidates => "receiver published no candidates"@,
            DialError::NoKnownEpoch => "no candidate from a known epoch"@,
            DialError::Rejected(e) => "candidate rejected (fail-closed): "@ + e.text(),
            DialError::IdsDisagree => "advertised candidates disagree on endpoint id"@,
        }
    }

    pub fn to_string(&self) -> (res: String)
        ensures
            res@ == self.text(),
    {
        match self {
            DialError::NoCandidates => "receiver published no candidates".to_owned(),
            DialError::NoKnownEpoch => "no candidate from a known epoch".to_owned(),
            DialError::Rejected(e) => {
                let cause = e.to_string();
                join2("candidate rejected (fail-closed): ", cause.as_str())
            },
            DialError::IdsDisagree => "advertised candidates disagree on endpoint id".to_owned(),
        }
    }
}

/// The candidates of one network epoch, in order.
pub open spec fn of_epoch(cands: Seq<DirectCandidate>, epoch: u64) -> Seq<DirectCandidate> {
    cands.filter(|c: DirectCandidate| c.network_epoch == epoch)
}

/// The first of the candidates that has expired at `now_ms`, if any has.
pub open spec fn first_expired(cands: Seq<DirectCandidate>, now_ms: u64) -> Option<DirectCandidate>
    decreases cands.len(),
{
    if cands.len() == 0 {
        None
    } else if cands[0].expired(now_ms) {
        Some(cands[0])
    } else {
        first_expired(cands.skip(1), now_ms)
    }
}

/// Whether all candidates belong to the endpoint of the first.
pub open spec fn ids_agree(cands: Seq<DirectCandidate>) -> bool {
    forall|i: int|
        0 <= i < cands.len() ==> (#[trigger] cands[i]).endpoint_id@ == cands[0].endpoint_id@
}

/// Choose what to dial among the advertised candidates at time `now_ms`.
///
/// Every candidate from the known epoch is validated and all of them are
/// dialed: on a multi-homed receiver any single address may be unreachable
/// while a later one is fine.
pub fn choose_target(cands: &Vec<DirectCandidate>, known_epoch: u64, now_ms: u64) -> (res: Result<
    DialTarget,
    DialError,
>)
    ensures
        ({
            let usable = of_epoch(cands@, known_epoch);
            match res {
                Ok(target) => {
                    &&& usable.len() > 0
                    &&& first_expired(usable, now_ms) is None
                    &&& ids_agree(usable)
                    &&& target.endpoint_id == usable[0].endpoint_id
                    &&& target.first == usable[0]
                    &&& target.addrs@ == usable.map_values(|c: DirectCandidate| c.addr)
                },
                Err(DialError::NoCandidates) => cands@.len() == 0,
                Err(DialError::NoKnownEpoch) => cands@.len() > 0 && usable.len() == 0,
                Err(DialError::Rejected(e)) => usable.len() > 0 && (first_expired(usable, now_ms)
                    matches Some(c) && e == CandidateError::Expired(c.expires_at_unix_ms)),
                Err(DialError::IdsDisagree) => usable.len() > 0 && first_expired(usable, now_ms)
                    is None && !ids_agree(usable),
            }
        }),
{
    let ghost wanted = |c: DirectCandidate| c.network_epoch == known_epoch;
    if cands.len() == 0 {
        return Err(DialError::NoCandidates);
    }
    let mut usable: Vec<DirectCandidate> = Vec::new();
    let mut i: usize = 0;
    assert(cands@.take(0).filter(wanted) =~= Seq::empty()) by {
        reveal(Seq::filter);
    }
    while i < cands.len()
        invariant
            i <= cands@.len(),
            wanted == (|c: DirectCandidate| c.network_epoch == known_epoch),
            usable@ == cands@.take(i as int).filter(wanted),
        decreases cands@.len() - i,
    {
        let c = cands[i];
        assert(cands@.take(i + 1).drop_last() =~= cands@.take(i as int));
        reveal(Seq::filter);
        if c.network_epoch == known_epoch {
            usable.push(c);
        }
        i = i + 1;
    }
    assert(cands@.take(i as int) =~= cands@);
    if usable.len() == 0 {
        return Err(DialError::NoKnownEpoch);
    }
    let mut j: usize = 0;
    assert(usable@.skip(0) =~= usable@);
    while j < usable.len()
        invariant
            j <= usable@.len(),
            usable@ == of_epoch(cands@, known_epoch),
            usable@.len() > 0,
            forall|k: int| 0 <= k < usable@.len() ==> (#[trigger] usable@[k]).network_epoch
                == known_epoch,
            first_expired(usable@, now_ms) == first_expired(usable@.skip(j as int), now_ms),
        decreases usable@.len() - j,
    {
        let epochs: [u64; 1] = [known_epoch];
        assert(epochs@.contains(known_epoch)) by {
            assert(epochs@[0] == known_epoch);
        }
        assert(usable@.skip(j as int).skip(1) =~= usable@.skip(j + 1));
        assert(usable@.skip(j as int)[0] == usable@[j as int]);
        match validate_candidate_at(&usable[j], epochs.as_slice(), now_ms) {
            Ok(_) => {},
            Err(e) => {
                return Err(DialError::Rejected(e));
            },
        }
        j = j + 1;
    }
    let endpoint_id = usable[0].endpoint_id;
    let mut addrs: Vec<SocketAddr> = Vec::new();
    let mut k: usize = 0;
    while k < usable.len()
        invariant
            k <= usable@.len(),
            usable@ == of_epoch(cands@, known_epoch),
            usable@.len() > 0,
            endpoint_id == usable@[0].endpoint_id,
            first_expired(usable@, now_ms) is None,
            forall|m: int| 0 <= m < k ==> (#[trigger] usable@[m]).endpoint_id@ == endpoint_id@,
            addrs@ == usable@.take(k as int).map_values(|c: DirectCandidate| c.addr),
        decreases usable@.len() - k,
    {
        let c = usable[k];
        if c.endpoint_id != endpoint_id {
            assert(usable@[k as int].endpoint_id@ != usable@[0].endpoint_id@);
            return Err(DialError::IdsDisagree);
        }
        addrs.push(c.addr);
        assert(addrs@ =~= usable@.take(k + 1).map_values(|c: DirectCandidate| c.addr));
        k = k + 1;
    }
    assert(usable@.take(k as int) =~= usable@);
    Ok(DialTarget { endpoint_id, first: usable[0], addrs })
}

// ---------------------------------------------------------------------------
// Advertising our own addresses
// ---------------------------------------------------------------------------

/// A transport address of the media endpoint.
#[derive(Debug, Clone)]
pub enum MediaTransport {
    Ip(SocketAddr),
    /// Anything else, as it prints.
    Other(String),
}

/// The addresses among transports that are all plain IP.
pub open spec fn ip_addrs(transports: Seq<MediaTransport>) -> Seq<SocketAddr> {
    transports.map_values(|t: MediaTransport| t->Ip_0)
}

/// Direct addresses of the media endpoint (IP transports only).
///
/// Refuses a non-IP transport, which would mean that the endpoint is no
/// longer direct-only; the first one is reported.
pub fn media_direct_addrs(transports: &Vec<MediaTransport>) -> (res: Result<
    Vec<SocketAddr>,
    String,
>)
    ensures
        match res {
            Ok(addrs) => (forall|i: int| 0 <= i < transports@.len() ==> transports@[i] is Ip)
                && addrs@ == ip_addrs(transports@),
            Err(e) => exists|i: int| #![trigger transports@[i]]
                {
                    &&& 0 <= i < transports@.len()
                    &&& transports@[i] matches MediaTransport::Other(t)
                    &&& (forall|j: int| 0 <= j < i ==> transports@[j] is Ip)
                    &&& e@ == "media endpoint must never expose non-IP transport, got "@ + t@
                },
        },
{
    let mut addrs: Vec<SocketAddr> = Vec::new();
    let mut i: usize = 0;
    while i < transports.len()
        invariant
            i <= transports@.len(),
            forall|j: int| 0 <= j < i ==> transports@[j] is Ip,
            addrs@ == ip_addrs(transports@.take(i as int)),
        decreases transports@.len() - i,
    {
        match &transports[i] {
            MediaTransport::Ip(addr) => {
                addrs.push(*addr);
            },
            MediaTransport::Other(text) => {
                assert(transports@[i as int] is Other);
                return Err(
                    join2(
                        "media endpoint must never expose non-IP transport, got ",
                        text.as_str(),
                    ),
                );
            },
        }
        assert(addrs@ =~= ip_addrs(transports@.take(i + 1)));
        i = i + 1;
    }
    assert(transports@.take(i as int) =~= transports@);
    Ok(addrs)
}

/// Why nothing is advertised.
#[derive(Debug, Clone, Copy, PartialEq, Eq, Structural)]
pub enum AdvertiseError {
    NoAddresses,
    /// The time of expiry does not fit in 64 bits.
    ExpiryTooFar,
}

impl AdvertiseError {
    /// The diagnostic.
    pub open spec fn text(self) -> Seq<char> {
        match self {
            AdvertiseError::NoAddresses => "media endpoint has no direct addresses"@,
            AdvertiseError::ExpiryTooFar => "candidate expiry out of range"@,
        }
    }

    pub fn to_string(&self) -> (res: String)
        ensures
            res@ == self.text(),
    {
        match self {
            AdvertiseError::NoAddresses => "media endpoint has no direct addresses".to_owned(),
            AdvertiseError::ExpiryTooFar => "candidate expiry out of range".to_owned(),
        }
    }
}

/// The local candidates for these addresses, observed at `now_ms`.
pub open spec fn locals(
    endpoint_id: EndpointId,
    addrs: Seq<SocketAddr>,
    ttl: Duration,
    epoch: u64,
    now_ms: u64,
) -> Seq<DirectCandidate> {
    addrs.map_values(
        |a: SocketAddr|
            DirectCandidate::made(endpoint_id, a, CandidateSource::Local, ttl, epoch, now_ms),
    )
}

/// Advertise every direct address of the media endpoint, observed at
/// `now_ms`.
pub fn local_candidates(
    endpoint_id: EndpointId,
    addrs: &Vec<SocketAddr>,
    ttl: Duration,
    epoch: u64,
    now_ms: u64,
) -> (res: Result<Vec<DirectCandidate>, AdvertiseError>)
    ensures
        match res {
            Ok(cands) => addrs@.len() > 0 && now_ms + ttl_millis(ttl) <= u64::MAX && cands@
                == locals(endpoint_id, addrs@, ttl, epoch, now_ms),
            Err(AdvertiseError::NoAddresses) => addrs@.len() == 0,
            Err(AdvertiseError::ExpiryTooFar) => addrs@.len() > 0 && now_ms + ttl_millis(ttl)
                > u64::MAX,
        },
{
    if addrs.len() == 0 {
        return Err(AdvertiseError::NoAddresses);
    }
    let mut cands: Vec<DirectCandidate> = Vec::new();
    let mut i: usize = 0;
    while i < addrs.len()
        invariant
            i <= addrs@.len(),
            addrs@.len() > 0,
            i > 0 ==> now_ms + ttl_millis(ttl) <= u64::MAX,
            cands@ == locals(endpoint_id, addrs@.take(i as int), ttl, epoch, now_ms),
        decreases addrs@.len() - i,
    {
        match DirectCandidate::observed(
            endpoint_id,
            addrs[i],
            CandidateSource::Local,
            ttl,
            epoch,
            now_ms,
        ) {
            Some(c) => {
                cands.push(c);
            },
            None => {
                return Err(AdvertiseError::ExpiryTooFar);
            },
        }
        assert(cands@ =~= locals(endpoint_id, addrs@.take(i + 1), ttl, epoch, now_ms));
        i = i + 1;
    }
    assert(addrs@.take(i as int) =~= addrs@);
    Ok(cands)
}

// ---------------------------------------------------------------------------
// Laws
// ---------------------------------------------------------------------------

/// A candidate is valid from its observation until its time to live is over,
/// where its epoch is known, and never again after that.
pub proof fn law_candidate_lifetime(
    endpoint_id: EndpointId,
    addr: SocketAddr,
    source: CandidateSource,
    ttl: Duration,
    epoch: u64,
    observed_ms: u64,
    known_epochs: Seq<u64>,
    now_ms: u64,
)
    requires
        observed_ms + ttl_millis(ttl) <= u64::MAX,
        known_epochs.contains(epoch),
        observed_ms <= now_ms,
    ensures
        validity(
            DirectCandidate::made(endpoint_id, addr, source, ttl, epoch, observed_ms),
            known_epochs,
            now_ms,
        ) is Ok <==> now_ms < observed_ms + ttl_millis(ttl),
{
}

/// A candidate from an epoch that is not known is never valid.
pub proof fn law_unknown_epoch_rejected(
    cand: DirectCandidate,
    known_epochs: Seq<u64>,
    now_ms: u64,
)
    requires
        !known_epochs.contains(cand.network_epoch),
    ensures
        validity(cand, known_epochs, now_ms) is Err,
{
}

/// Once expired, a candidate stays expired.
pub proof fn law_expiry_is_final(cand: DirectCandidate, now_ms: u64, later_ms: u64)
    requires
        cand.expired(now_ms),
        now_ms <= later_ms,
    ensures
        cand.expired(later_ms),
{
}

/// Where the candidates of the known epoch are dialed, each of them is valid
/// at that time: none is expired and none comes from another epoch.
pub proof fn law_dialed_candidates_are_valid(
    cands: Seq<DirectCandidate>,
    known_epoch: u64,
    now_ms: u64,
)
    requires
        first_expired(of_epoch(cands, known_epoch), now_ms) is None,
    ensures
        forall|i: int|
            0 <= i < of_epoch(cands, known_epoch).len() ==> validity(
                #[trigger] of_epoch(cands, known_epoch)[i],
                seq![known_epoch],
                now_ms,
            ) is Ok,
{
    let usable = of_epoch(cands, known_epoch);
    assert forall|i: int| 0 <= i < usable.len() implies validity(
        #[trigger] usable[i],
        seq![known_epoch],
        now_ms,
    ) is Ok by {
        lemma_none_expired(usable, now_ms, i);
        cands.lemma_filter_pred(|c: DirectCandidate| c.network_epoch == known_epoch, i);
        assert(seq![known_epoch][0] == known_epoch);
        assert(seq![known_epoch].contains(known_epoch));
    }
}

proof fn lemma_none_expired(cands: Seq<DirectCandidate>, now_ms: u64, i: int)
    requires
        first_expired(cands, now_ms) is None,
        0 <= i < cands.len(),
    ensures
        !cands[i].expired(now_ms),
    decreases cands.len(),
{
    if i > 0 {
        lemma_none_expired(cands.skip(1), now_ms, i - 1);
        assert(cands.skip(1)[i - 1] == cands[i]);
    }
}

/// The candidates of the known epoch are exactly those advertised with it, in
/// the order advertised and whatever their source: one more candidate joins
/// them at the end where its epoch is the known one, and changes nothing
/// otherwise.
pub proof fn law_known_epoch_alone_selects(
    cands: Seq<DirectCandidate>,
    cand: DirectCandidate,
    epoch: u64,
)
    ensures
        of_epoch(Seq::empty(), epoch) == Seq::<DirectCandidate>::empty(),
        cand.network_epoch == epoch ==> of_epoch(cands.push(cand), epoch) == of_epoch(
            cands,
            epoch,
        ).push(cand),
        cand.network_epoch != epoch ==> of_epoch(cands.push(cand), epoch) == of_epoch(cands, epoch),
{
    reveal(Seq::filter);
    assert(cands.push(cand).drop_last() =~= cands);
    assert(of_epoch(Seq::empty(), epoch) =~= Seq::<DirectCandidate>::empty());
}

/// How many of the candidates carry an epoch.
pub open spec fn carrying(cands: Seq<DirectCandidate>, epoch: u64) -> nat
    decreases cands.len(),
{
    if cands.len() == 0 {
        0
    } else if cands.last().network_epoch == epoch {
        carrying(cands.drop_last(), epoch) + 1
    } else {
        carrying(cands.drop_last(), epoch)
    }
}

/// An advertised candidate is among those dialed if and only if its epoch is
/// the known one; none is made up, left out or doubled.
pub proof fn law_every_known_candidate_is_dialed(cands: Seq<DirectCandidate>, epoch: u64)
    ensures
        forall|i: int|
            0 <= i < cands.len() ==> (of_epoch(cands, epoch).contains(#[trigger] cands[i])
                <==> cands[i].network_epoch == epoch),
        forall|k: int|
            0 <= k < of_epoch(cands, epoch).len() ==> cands.contains(
                #[trigger] of_epoch(cands, epoch)[k],
            ),
        of_epoch(cands, epoch).len() == carrying(cands, epoch),
    decreases cands.len(),
{
    if cands.len() == 0 {
        assert(cands =~= Seq::empty());
        law_known_epoch_alone_selects(cands, arbitrary(), epoch);
    } else {
        let rest = cands.drop_last();
        let c = cands.last();
        let n = cands.len() - 1;
        law_every_known_candidate_is_dialed(rest, epoch);
        law_known_epoch_alone_selects(rest, c, epoch);
        assert(rest.push(c) =~= cands);
        let before = of_epoch(rest, epoch);
        let after = of_epoch(cands, epoch);
        assert forall|k: int| 0 <= k < after.len() implies cands.contains(
            #[trigger] after[k],
        ) by {
            if k < before.len() {
                assert(after[k] == before[k]);
                assert(rest.contains(before[k]));
                let j = choose|j: int| 0 <= j < rest.len() && rest[j] == before[k];
                assert(cands[j] == before[k]);
            } else {
                assert(cands[n] == c);
            }
        }
        assert forall|i: int| 0 <= i < cands.len() implies (after.contains(#[trigger] cands[i])
            <==> cands[i].network_epoch == epoch) by {
            if after.contains(cands[i]) {
                lemma_of_epoch(cands, epoch, cands[i]);
            }
            if cands[i].network_epoch == epoch {
                if i < n {
                    assert(rest[i] == cands[i]);
                    assert(before.contains(rest[i]));
                    let k = choose|k: int| 0 <= k < before.len() && before[k] == rest[i];
                    assert(after[k] == cands[i]);
                } else {
                    assert(after[before.len() as int] == c);
                }
            }
        }
    }
}

/// Those dialed carry the known epoch.
proof fn lemma_of_epoch(cands: Seq<DirectCandidate>, epoch: u64, c: DirectCandidate)
    requires
        of_epoch(cands, epoch).contains(c),
    ensures
        c.network_epoch == epoch,
    decreases cands.len(),
{
    if cands.len() == 0 {
        assert(cands =~= Seq::empty());
        law_known_epoch_alone_selects(cands, c, epoch);
    } else {
        let rest = cands.drop_last();
        law_known_epoch_alone_selects(rest, cands.last(), epoch);
        assert(rest.push(cands.last()) =~= cands);
        let after = of_epoch(cands, epoch);
        let k = choose|k: int| 0 <= k < after.len() && after[k] == c;
        if k < of_epoch(rest, epoch).len() {
            assert(of_epoch(rest, epoch)[k] == c);
            lemma_of_epoch(rest, epoch, c);
        }
    }
}

/// The candidate reported as expired is the first that has reached its time;
/// none is reported exactly where all are still before theirs.
pub proof fn law_first_expired_is_reported(cands: Seq<DirectCandidate>, now_ms: u64, i: int)
    requires
        0 <= i <= cands.len(),
        i < cands.len() ==> cands[i].expires_at_unix_ms <= now_ms,
        forall|j: int| 0 <= j < i ==> now_ms < (#[trigger] cands[j]).expires_at_unix_ms,
    ensures
        first_expired(cands, now_ms) == (if i < cands.len() {
            Some(cands[i])
        } else {
            None
        }),
    decreases cands.len(),
{
    if i > 0 {
        assert(now_ms < cands[0].expires_at_unix_ms);
        let rest = cands.skip(1);
        assert forall|j: int| 0 <= j < i - 1 implies now_ms < (
        #[trigger] rest[j]).expires_at_unix_ms by {
            assert(rest[j] == cands[j + 1]);
        }
        if i < cands.len() {
            assert(rest[i - 1] == cands[i]);
        }
        law_first_expired_is_reported(rest, now_ms, i - 1);
    }
}

/// The candidates agree exactly where no two of them name different endpoints.
pub proof fn law_ids_agree_pairwise(cands: Seq<DirectCandidate>)
    ensures
        ids_agree(cands) <==> forall|i: int, j: int|
            0 <= i < cands.len() && 0 <= j < cands.len() ==> (#[trigger] cands[i]).endpoint_id@ == (
            #[trigger] cands[j]).endpoint_id@,
{
    if ids_agree(cands) {
        assert forall|i: int, j: int| 0 <= i < cands.len() && 0 <= j < cands.len() implies (
        #[trigger] cands[i]).endpoint_id@ == (#[trigger] cands[j]).endpoint_id@ by {}
    }
}

/// A candidate may be dialed exactly before its time is over and where its
/// epoch is one of those known; else the reason says which of the two failed,
/// expiry first.
pub proof fn law_validity(cand: DirectCandidate, known_epochs: Seq<u64>, now_ms: u64)
    ensures
        ({
            let known = exists|i: int|
                0 <= i < known_epochs.len() && #[trigger] known_epochs[i] == cand.network_epoch;
            let res = validity(cand, known_epochs, now_ms);
            &&& res is Ok <==> now_ms < cand.expires_at_unix_ms && known
            &&& now_ms >= cand.expires_at_unix_ms ==> res == Err::<(), CandidateError>(
                CandidateError::Expired(cand.expires_at_unix_ms),
            )
            &&& now_ms < cand.expires_at_unix_ms && !known ==> res == Err::<(), CandidateError>(
                CandidateError::UnknownEpoch(cand.network_epoch),
            )
        }),
        cand.expired(now_ms) <==> cand.expires_at_unix_ms <= now_ms,
{
    if known_epochs.contains(cand.network_epoch) {
        let i = choose|i: int| 0 <= i < known_epochs.len() && known_epochs[i] == cand.network_epoch;
        assert(known_epochs[i] == cand.network_epoch);
    }
}

/// A candidate keeps whom it stands for, where, from what source and in which
/// epoch; it was observed when it was made, and it expires as many whole
/// milliseconds later as its time to live has.
pub proof fn law_candidate_is_made(
    endpoint_id: EndpointId,
    addr: SocketAddr,
    source: CandidateSource,
    ttl: Duration,
    epoch: u64,
    now_ms: u64,
)
    requires
        now_ms + ttl.secs * 1000 + ttl.nanos / 1_000_000 <= u64::MAX,
    ensures
        ({
            let c = DirectCandidate::made(endpoint_id, addr, source, ttl, epoch, now_ms);
            &&& c.endpoint_id == endpoint_id
            &&& c.addr == addr
            &&& c.source == source
            &&& c.network_epoch == epoch
            &&& c.observed_at_unix_ms == now_ms
            &&& c.expires_at_unix_ms == now_ms + ttl.secs * 1000 + ttl.nanos / 1_000_000
        }),
        ttl_millis(ttl) == ttl.secs * 1000 + ttl.nanos / 1_000_000,
{
}

/// Every address is advertised, in order, as a local candidate of this
/// endpoint and epoch, observed now and valid for the time to live; and the
/// addresses of IP transports are all taken, in order.
pub proof fn law_all_addresses_advertised(
    endpoint_id: EndpointId,
    addrs: Seq<SocketAddr>,
    ttl: Duration,
    epoch: u64,
    now_ms: u64,
    transports: Seq<MediaTransport>,
)
    requires
        now_ms + ttl.secs * 1000 + ttl.nanos / 1_000_000 <= u64::MAX,
    ensures
        locals(endpoint_id, addrs, ttl, epoch, now_ms).len() == addrs.len(),
        forall|i: int|
            0 <= i < addrs.len() ==> (#[trigger] locals(
                endpoint_id,
                addrs,
                ttl,
                epoch,
                now_ms,
            )[i]) == (DirectCandidate {
                endpoint_id,
                addr: addrs[i],
                source: CandidateSource::Local,
                observed_at_unix_ms: now_ms,
                expires_at_unix_ms: (now_ms + ttl.secs * 1000 + ttl.nanos / 1_000_000) as u64,
                network_epoch: epoch,
            }),
        ip_addrs(transports).len() == transports.len(),
        forall|i: int|
            0 <= i < transports.len() ==> (transports[i] matches MediaTransport::Ip(a)
                ==> #[trigger] ip_addrs(transports)[i] == a),
{
}

/// A time to live whose milliseconds do not fit 64 bits counts for what is left
/// of them after taking off 2^64 as often as it goes.
pub proof fn law_ttl_wraps(ttl: Duration, times: nat, rest: nat)
    requires
        ttl.secs * 1000 + ttl.nanos / 1_000_000 == times * 18446744073709551616 + rest,
        rest <= u64::MAX,
    ensures
        ttl_millis(ttl) == rest,
{
}

/// Two endpoint ids are the same exactly where all their bytes are.
pub proof fn law_same_endpoint(a: EndpointId, b: EndpointId)
    ensures
        vstd::std_specs::cmp::PartialEqSpec::eq_spec(&a, &b) <==> forall|i: int|
            0 <= i < 32 ==> #[trigger] a@[i] == b@[i],
{
    assert(a@.len() == 32 && b@.len() == 32);
    if forall|i: int| 0 <= i < 32 ==> #[trigger] a@[i] == b@[i] {
        assert(a@ =~= b@);
    }
}

} // verus!
